//! Paper sizes in millimetres.

use vstd::prelude::*;
use crate::models::{PaperSize, PaperSizeModel};
use crate::text::{decimal, digit_char, same_text, owned};

verus! {

/// A page size in millimetres, as decimal text.
pub struct PaperDimensions {
    pub width_mm: String,
    pub height_mm: String,
}

pub struct DimensionsModel {
    pub width_mm: Seq<char>,
    pub height_mm: Seq<char>,
}

impl View for PaperDimensions {
    type V = DimensionsModel;

    open spec fn view(&self) -> DimensionsModel {
        DimensionsModel { width_mm: self.width_mm@, height_mm: self.height_mm@ }
    }
}

/// A paper size that the service does not know.
pub struct PaperError {
    pub name: String,
}

impl PaperError {
    /// The message reported to the client.
    pub fn message(&self) -> (s: String)
        ensures
            s@ == paper_error_message(self.name@),
    {
        let mut s = owned("不支持的纸张尺寸: ");
        s.append(self.name.as_str());
        s
    }
}

pub open spec fn paper_error_message(name: Seq<char>) -> Seq<char> {
    "不支持的纸张尺寸: "@ + name
}

/// The standard paper sizes, width and height in millimetres.
pub open spec fn standard_size(name: Seq<char>) -> Option<(Seq<char>, Seq<char>)> {
    if name == "A3"@ {
        Some(("297"@, "420"@))
    } else if name == "A4"@ {
        Some(("210"@, "297"@))
    } else if name == "A5"@ {
        Some(("148"@, "210"@))
    } else if name == "A6"@ {
        Some(("105"@, "148"@))
    } else if name == "B4"@ {
        Some(("250"@, "353"@))
    } else if name == "B5"@ {
        Some(("176"@, "250"@))
    } else if name == "Letter"@ {
        Some(("216"@, "279"@))
    } else if name == "Legal"@ {
        Some(("216"@, "356"@))
    } else if name == "Tabloid"@ {
        Some(("279"@, "432"@))
    } else if name == "4x6"@ {
        Some(("102"@, "152"@))
    } else if name == "5x7"@ {
        Some(("127"@, "178"@))
    } else if name == "6x8"@ {
        Some(("152"@, "203"@))
    } else {
        None
    }
}

/// The size of a page: a standard size by its name, a custom size by its
/// millimetre values; `None` for an unknown name.
pub open spec fn page_size(size: PaperSizeModel) -> Option<DimensionsModel> {
    match size {
        PaperSizeModel::Standard(name) => match standard_size(name) {
            Some((w, h)) => Some(DimensionsModel { width_mm: w, height_mm: h }),
            None => None,
        },
        PaperSizeModel::Custom(c) => Some(DimensionsModel { width_mm: c.width_mm, height_mm: c.height_mm }),
    }
}

fn dims(w: &str, h: &str) -> (d: PaperDimensions)
    ensures
        d@ == (DimensionsModel { width_mm: w@, height_mm: h@ }),
{
    PaperDimensions { width_mm: owned(w), height_mm: owned(h) }
}

/// The size of a standard paper by its name.
pub fn standard(name: &str) -> (r: Result<PaperDimensions, PaperError>)
    ensures
        match standard_size(name@) {
            Some((w, h)) => r matches Ok(d) && d@ == (DimensionsModel { width_mm: w, height_mm: h }),
            None => r matches Err(e) && e.name@ == name@,
        },
{
    if same_text(name, "A3") {
        Ok(dims("297", "420"))
    } else if same_text(name, "A4") {
        Ok(dims("210", "297"))
    } else if same_text(name, "A5") {
        Ok(dims("148", "210"))
    } else if same_text(name, "A6") {
        Ok(dims("105", "148"))
    } else if same_text(name, "B4") {
        Ok(dims("250", "353"))
    } else if same_text(name, "B5") {
        Ok(dims("176", "250"))
    } else if same_text(name, "Letter") {
        Ok(dims("216", "279"))
    } else if same_text(name, "Legal") {
        Ok(dims("216", "356"))
    } else if same_text(name, "Tabloid") {
        Ok(dims("279", "432"))
    } else if same_text(name, "4x6") {
        Ok(dims("102", "152"))
    } else if same_text(name, "5x7") {
        Ok(dims("127", "178"))
    } else if same_text(name, "6x8") {
        Ok(dims("152", "203"))
    } else {
        Err(PaperError { name: owned(name) })
    }
}

/// The size of a page in millimetres.
pub fn dimensions(size: &PaperSize) -> (r: Result<PaperDimensions, PaperError>)
    ensures
        match page_size(size@) {
            Some(d) => r matches Ok(x) && x@ == d,
            None => r matches Err(e) && size@ == PaperSizeModel::Standard(e.name@),
        },
{
    match size {
        PaperSize::Standard(name) => standard(name.as_str()),
        PaperSize::Custom(custom) => Ok(PaperDimensions {
            width_mm: custom.width_mm.clone(),
            height_mm: custom.height_mm.clone(),
        }),
    }
}

/// Whether the standard paper `name` measures `w` by `h` millimetres.
pub open spec fn size_mm(name: Seq<char>, w: nat, h: nat) -> bool {
    standard_size(name) == Some((decimal(w), decimal(h)))
}

/// Millimetres in `t` tenths of an inch, to the nearest millimetre.
pub open spec fn tenths_of_inch_mm(t: nat) -> nat {
    (254 * t + 50) / 100
}

proof fn lemma_digit_char_injective(a: nat, b: nat)
    requires
        a < 10,
        b < 10,
        digit_char(a) == digit_char(b),
    ensures
        a == b,
{
    assert(digit_char(a) as u32 == 48 + a);
    assert(digit_char(b) as u32 == 48 + b);
}

/// Different numbers are written differently.
proof fn lemma_decimal_injective(a: nat, b: nat)
    requires
        decimal(a) == decimal(b),
    ensures
        a == b,
    decreases a,
{
    if a < 10 && b < 10 {
        assert(decimal(a)[0] == digit_char(a));
        assert(decimal(b)[0] == digit_char(b));
        lemma_digit_char_injective(a, b);
    } else if a < 10 {
        lemma_decimal_nonempty((b / 10) as nat);
        assert(decimal(b).len() >= 2);
    } else if b < 10 {
        lemma_decimal_nonempty((a / 10) as nat);
        assert(decimal(a).len() >= 2);
    } else {
        assert(decimal(a).last() == digit_char(a % 10));
        assert(decimal(b).last() == digit_char(b % 10));
        lemma_digit_char_injective(a % 10, b % 10);
        assert(decimal(a).drop_last() =~= decimal((a / 10) as nat));
        assert(decimal(b).drop_last() =~= decimal((b / 10) as nat));
        lemma_decimal_injective((a / 10) as nat, (b / 10) as nat);
    }
}

proof fn lemma_decimal_nonempty(n: nat)
    ensures
        decimal(n).len() >= 1,
    decreases n,
{
    if n >= 10 {
        lemma_decimal_nonempty((n / 10) as nat);
    }
}

/// The text of a three-digit number.
proof fn lemma_three_digits(n: nat)
    requires
        100 <= n < 1000,
    ensures
        decimal(n) == seq![digit_char(n / 100), digit_char((n / 10) % 10), digit_char(n % 10)],
{
    assert(decimal((n / 10) as nat) == decimal(((n / 10) / 10) as nat).push(digit_char((n / 10) % 10)));
    assert((n / 10) / 10 == n / 100);
    assert(decimal((n / 100) as nat) == seq![digit_char(n / 100)]);
    assert(decimal(n) =~= seq![digit_char(n / 100), digit_char((n / 10) % 10), digit_char(n % 10)]);
}

proof fn lemma_sizes_known()
    ensures
        size_mm("A3"@, 297, 420),
        size_mm("A4"@, 210, 297),
        size_mm("A5"@, 148, 210),
        size_mm("A6"@, 105, 148),
        size_mm("B4"@, 250, 353),
        size_mm("B5"@, 176, 250),
        size_mm("Letter"@, 216, 279),
        size_mm("Legal"@, 216, 356),
        size_mm("Tabloid"@, 279, 432),
        size_mm("4x6"@, 102, 152),
        size_mm("5x7"@, 127, 178),
        size_mm("6x8"@, 152, 203),
{
    reveal_strlit("A3");
    reveal_strlit("A4");
    reveal_strlit("A5");
    reveal_strlit("A6");
    reveal_strlit("B4");
    reveal_strlit("B5");
    reveal_strlit("Letter");
    reveal_strlit("Legal");
    reveal_strlit("Tabloid");
    reveal_strlit("4x6");
    reveal_strlit("5x7");
    reveal_strlit("6x8");
    reveal_strlit("297");
    reveal_strlit("420");
    reveal_strlit("210");
    reveal_strlit("148");
    reveal_strlit("105");
    reveal_strlit("250");
    reveal_strlit("353");
    reveal_strlit("176");
    reveal_strlit("216");
    reveal_strlit("279");
    reveal_strlit("356");
    reveal_strlit("432");
    reveal_strlit("102");
    reveal_strlit("152");
    reveal_strlit("127");
    reveal_strlit("178");
    reveal_strlit("203");
    lemma_three_digits(297);
    lemma_three_digits(420);
    lemma_three_digits(210);
    lemma_three_digits(148);
    lemma_three_digits(105);
    lemma_three_digits(250);
    lemma_three_digits(353);
    lemma_three_digits(176);
    lemma_three_digits(216);
    lemma_three_digits(279);
    lemma_three_digits(356);
    lemma_three_digits(432);
    lemma_three_digits(102);
    lemma_three_digits(152);
    lemma_three_digits(127);
    lemma_three_digits(178);
    lemma_three_digits(203);
    assert("A4"@[1] != "A3"@[1]);
    assert("A5"@[1] != "A3"@[1]);
    assert("A5"@[1] != "A4"@[1]);
    assert("A6"@[1] != "A3"@[1]);
    assert("A6"@[1] != "A4"@[1]);
    assert("A6"@[1] != "A5"@[1]);
    assert("B4"@[0] != "A3"@[0]);
    assert("B4"@[0] != "A4"@[0]);
    assert("B4"@[0] != "A5"@[0]);
    assert("B4"@[0] != "A6"@[0]);
    assert("B5"@[0] != "A3"@[0]);
    assert("B5"@[0] != "A4"@[0]);
    assert("B5"@[0] != "A5"@[0]);
    assert("B5"@[0] != "A6"@[0]);
    assert("B5"@[1] != "B4"@[1]);
    assert("Letter"@.len() != "A3"@.len());
    assert("Letter"@.len() != "A4"@.len());
    assert("Letter"@.len() != "A5"@.len());
    assert("Letter"@.len() != "A6"@.len());
    assert("Letter"@.len() != "B4"@.len());
    assert("Letter"@.len() != "B5"@.len());
    assert("Legal"@.len() != "A3"@.len());
    assert("Legal"@.len() != "A4"@.len());
    assert("Legal"@.len() != "A5"@.len());
    assert("Legal"@.len() != "A6"@.len());
    assert("Legal"@.len() != "B4"@.len());
    assert("Legal"@.len() != "B5"@.len());
    assert("Legal"@.len() != "Letter"@.len());
    assert("Tabloid"@.len() != "A3"@.len());
    assert("Tabloid"@.len() != "A4"@.len());
    assert("Tabloid"@.len() != "A5"@.len());
    assert("Tabloid"@.len() != "A6"@.len());
    assert("Tabloid"@.len() != "B4"@.len());
    assert("Tabloid"@.len() != "B5"@.len());
    assert("Tabloid"@.len() != "Letter"@.len());
    assert("Tabloid"@.len() != "Legal"@.len());
    assert("4x6"@.len() != "A3"@.len());
    assert("4x6"@.len() != "A4"@.len());
    assert("4x6"@.len() != "A5"@.len());
    assert("4x6"@.len() != "A6"@.len());
    assert("4x6"@.len() != "B4"@.len());
    assert("4x6"@.len() != "B5"@.len());
    assert("4x6"@.len() != "Letter"@.len());
    assert("4x6"@.len() != "Legal"@.len());
    assert("4x6"@.len() != "Tabloid"@.len());
    assert("5x7"@.len() != "A3"@.len());
    assert("5x7"@.len() != "A4"@.len());
    assert("5x7"@.len() != "A5"@.len());
    assert("5x7"@.len() != "A6"@.len());
    assert("5x7"@.len() != "B4"@.len());
    assert("5x7"@.len() != "B5"@.len());
    assert("5x7"@.len() != "Letter"@.len());
    assert("5x7"@.len() != "Legal"@.len());
    assert("5x7"@.len() != "Tabloid"@.len());
    assert("5x7"@[0] != "4x6"@[0]);
    assert("6x8"@.len() != "A3"@.len());
    assert("6x8"@.len() != "A4"@.len());
    assert("6x8"@.len() != "A5"@.len());
    assert("6x8"@.len() != "A6"@.len());
    assert("6x8"@.len() != "B4"@.len());
    assert("6x8"@.len() != "B5"@.len());
    assert("6x8"@.len() != "Letter"@.len());
    assert("6x8"@.len() != "Legal"@.len());
    assert("6x8"@.len() != "Tabloid"@.len());
    assert("6x8"@[0] != "4x6"@[0]);
    assert("6x8"@[0] != "5x7"@[0]);
    assert("297"@ =~= decimal(297));
    assert("420"@ =~= decimal(420));
    assert("210"@ =~= decimal(210));
    assert("148"@ =~= decimal(148));
    assert("105"@ =~= decimal(105));
    assert("250"@ =~= decimal(250));
    assert("353"@ =~= decimal(353));
    assert("176"@ =~= decimal(176));
    assert("216"@ =~= decimal(216));
    assert("279"@ =~= decimal(279));
    assert("356"@ =~= decimal(356));
    assert("432"@ =~= decimal(432));
    assert("102"@ =~= decimal(102));
    assert("152"@ =~= decimal(152));
    assert("127"@ =~= decimal(127));
    assert("178"@ =~= decimal(178));
    assert("203"@ =~= decimal(203));
}

/// The ISO 216 sizes: A4 is 210 by 297 millimetres and B4 250 by 353; each
/// size of a series is the one before it cut in half across its height, so
/// its height is the width of the one before and its width half that one's
/// height (to the millimetre below): A3 is two A4 side by side, A5 half an
/// A4, A6 half an A5, B5 half a B4.
pub proof fn law_iso_paper_sizes()
    ensures
        size_mm("A4"@, 210, 297),
        size_mm("B4"@, 250, 353),
        forall|w: nat, h: nat| #[trigger] size_mm("A4"@, w, h) ==> size_mm("A3"@, h, 2 * w),
        forall|w: nat, h: nat| #[trigger] size_mm("A4"@, w, h) ==> size_mm("A5"@, h / 2, w),
        forall|w: nat, h: nat| #[trigger] size_mm("A5"@, w, h) ==> size_mm("A6"@, h / 2, w),
        forall|w: nat, h: nat| #[trigger] size_mm("B4"@, w, h) ==> size_mm("B5"@, h / 2, w),
{
    lemma_sizes_known();
    assert forall|w: nat, h: nat| #[trigger] size_mm("A4"@, w, h) implies size_mm("A3"@, h, 2 * w) && size_mm(
        "A5"@,
        h / 2,
        w,
    ) by {
        lemma_decimal_injective(w, 210);
        lemma_decimal_injective(h, 297);
    }
    assert forall|w: nat, h: nat| #[trigger] size_mm("A5"@, w, h) implies size_mm("A6"@, h / 2, w) by {
        lemma_decimal_injective(w, 148);
        lemma_decimal_injective(h, 210);
    }
    assert forall|w: nat, h: nat| #[trigger] size_mm("B4"@, w, h) implies size_mm("B5"@, h / 2, w) by {
        lemma_decimal_injective(w, 250);
        lemma_decimal_injective(h, 353);
    }
}

/// The sizes named in inches measure those inches in millimetres, to the
/// nearest millimetre: Letter 8.5 by 11 inches, Legal 8.5 by 14, Tabloid 11
/// by 17, and the photo sizes 4 by 6, 5 by 7 and 6 by 8.
pub proof fn law_inch_paper_sizes()
    ensures
        size_mm("Letter"@, tenths_of_inch_mm(85), tenths_of_inch_mm(110)),
        size_mm("Legal"@, tenths_of_inch_mm(85), tenths_of_inch_mm(140)),
        size_mm("Tabloid"@, tenths_of_inch_mm(110), tenths_of_inch_mm(170)),
        size_mm("4x6"@, tenths_of_inch_mm(40), tenths_of_inch_mm(60)),
        size_mm("5x7"@, tenths_of_inch_mm(50), tenths_of_inch_mm(70)),
        size_mm("6x8"@, tenths_of_inch_mm(60), tenths_of_inch_mm(80)),
{
    lemma_sizes_known();
}

/// A custom paper size is used as given; a standard one by its name, and
/// only the twelve names of the table are known: A3 to A6, B4, B5, Letter,
/// Legal, Tabloid, 4x6, 5x7 and 6x8.
pub proof fn law_page_sizes_by_kind(size: PaperSizeModel)
    ensures
        size matches PaperSizeModel::Custom(c) ==> page_size(size) == Some(
            DimensionsModel { width_mm: c.width_mm, height_mm: c.height_mm },
        ),
        size matches PaperSizeModel::Standard(n) ==> (page_size(size) is Some <==> {
            ||| n == "A3"@ ||| n == "A4"@ ||| n == "A5"@ ||| n == "A6"@
            ||| n == "B4"@ ||| n == "B5"@ ||| n == "Letter"@ ||| n == "Legal"@
            ||| n == "Tabloid"@ ||| n == "4x6"@ ||| n == "5x7"@ ||| n == "6x8"@
        }),
{
}

} // verus!
