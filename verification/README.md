# missive

The logic of Missive, a self-hosted mail, calendar and contacts client that
speaks JMAP, as a library verified with Verus, and the `missive` program
around it.

- `src/` is the verified library. `text` holds the string and number
  specifications everything else is stated over; `jmap`, `calendar`,
  `contacts`, `compose`, `actions` and `sanitize` hold the views of mail,
  events and contacts, the compose form and the bulk actions; `push` and
  `webhook` the live updates and the webhook posts; `cli` the commands'
  checks, reports and configuration text; `date` the calendar arithmetic
  that `chrono` performs.
- `app/` is the program: command-line parsing, configuration files, the
  setup prompts, and the exchanges with the JMAP server and the webhook
  receiver.
- `tests/` runs the library on concrete values.
