# dvcli

A command-line client that queries Gradle build information (results,
deprecations, failures, tests, task execution, network activity, dependencies)
from a Develocity server and prints it as colored text or JSON.

## Layout

- `src/` is the library, verified with Verus:
  - `models/`: the data model of the API's responses, with the flattening of
    the test tree and the parsing of test outcome filters;
  - `config.rs`: option parsing and the merging of command-line, environment,
    config-file and default settings;
  - `client.rs`: the URLs of the API endpoints, how a response status and a
    transport failure are read, which sections are requested, and how the
    fetched sections are combined;
  - `output/`: the output records, the exact number, size, duration and time
    formatting, the network breakdowns (busiest first), the resolved
    dependencies (grouped by type, sorted by namespace and name) and the human-readable
    report (`human.rs`), each line specified piece by piece;
  - `text.rs`: character-level text operations with exact specifications;
  - `error.rs`: the errors and their exit codes.
- `app/` is the program around the library: command-line parsing, reading the
  config file and the environment, the HTTP requests, JSON (de)serialization,
  and the floating-point figures of the report.
- `tests/` runs the library on concrete values.
