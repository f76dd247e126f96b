# cwe_print

The core of a desktop print service that accepts JSON print commands over
TCP (one command per line) and WebSocket, queues them, and prints them one at
a time: HTML and images are laid out on a page and rendered to PDF by a
headless browser, PDFs go to the system's print command (`lp` on macOS and
Linux, PowerShell `Start-Process -Verb Print` on Windows), and dry runs stop
short of the printer.

- `src/` is the verified library: command validation, paper sizes, the HTML
  page of a command, print planning and command lines, file names and
  `file://` URLs, the print queue's state machine and the worker's runs
  over it, service status, settings updates, and the parsing of the
  system's printer lists.  Each function states its result over a
  mathematical model of its inputs, and the laws that tie the functions
  together are proved as `law_*` proof functions.
- `app/` is the desktop shell around it: the Tauri window and tray, the
  TCP and WebSocket listeners, the queue's worker, files, processes and
  settings on disk, and the serde forms of the data.
- `tests/` runs the library on concrete inputs.
