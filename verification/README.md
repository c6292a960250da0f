# afbv4

A library for writing bindings of the AFB application framework binder,
verified with Verus: the values, rules and reports a binding works with,
each function stated by a contract over a mathematical model and proved.

## Layout

- `src/` — the verified library
  - `jsonc.rs`: JSON values (`JsoncObj`, seen as `Jval`), typed reads and
    writes of members and items, comparison (`contains`, `equal`) and the
    compact JSON text of a value.
  - `error.rs`: the error type and the texts of the binder's status codes.
  - `hexa.rs`: byte strings written as `[01,ff,...]` and read back.
  - `log.rs`: log levels, syslog numbers and verbosity masks.
  - `permission.rs`: access rules of verbs and the form the binder checks.
  - `event.rs`, `verb.rs`, `api.rs`, `registry.rs`: the parts of an api,
    what it declares to the binder, its introspection, and the run of
    registrations that stops at the first failure.
  - `data.rs`: status codes, argument indexes, builtin data types.
  - `tap.rs`: test suites of verbs and their Test Anything Protocol
    reports.
  - `laws.rs`: properties across operations (a read gives back a write, a
    value matches itself, a byte string survives its text form, ...).
- `tests/` — tests on concrete values.
- `app/` — the host side: reading JSON text (with `serde_json`), printing
  values and reports, and the macros that record where an error was
  raised.

The calls into the binder itself (creating apis and events, sending
replies, running jobs and timers) are made by the code that hosts a
binding. For the preparation and the controls of an api, the
registration of a group, events and test runs, the library takes what
those calls answer and decides the next step; it also gives the status
of an event push and counts the requests and events an api is handed,
naming each event message. Timers, jobs and the dispatch of requests and
events themselves are left to that code.
