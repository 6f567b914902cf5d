# serial_unit_testing

A library for testing devices on a serial port, verified with Verus, and the
`sut` command line application around it.

- `src/` is the verified library: byte/text conversions (`utils`), the
  script language's lexer and parser (`parser`), tests and test suites with
  the step-by-step run of a test (`tests`), the serial settings and the
  response checks of a connection (`serial`), what command line values
  select (`commands`), and the state of the interactive monitor
  (`monitor`, `windows`). Contracts are stated over spec functions and
  views; `stdlib` holds the few trusted contracts of standard-library and
  `regex` calls.
- `app/` is the application: argument handling, the serial port itself,
  the terminal user interface, and the loops that perform what the library
  decides.
- `tests/` runs the library on concrete values.
