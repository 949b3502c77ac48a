# comandas

The front end of a bar/restaurant order system ("comandas"): clients, employees,
products, open comandas and their items, the cash desk and payments, talking to a
REST API from the browser.

- `src/` is the verified library (Verus). It holds the rules and the text
  handling of the front end: input masks and validation, integer parsing and
  formatting with std's exact semantics, `encodeURIComponent`, the query strings
  and paths of every API call, lenient decoding of API records, session expiry,
  group-based access and menus, paging, the snackbar protocol, and the cash-desk
  flow from the dashboard's selection to the payment form. Each page's decisions
  (what a fetched page shows, which answers still count, what follows a deletion,
  what a form submits or why it refuses, how the photo compression goes on) are
  step functions that take plain values and return the step to perform. Public proof functions
  named `law_*` state what holds across calls.
- `tests/` runs the library on concrete values.
- `app/` is the browser program around it: serde records, session storage,
  HTTP calls with `reqwest`, the loops that perform the library's steps, the
  login screen and global snackbar with `leptos`, and the money arithmetic,
  which works on floats.
