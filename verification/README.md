# pyrometer_fiesta

Runs the pyrometer analyzer over a
collection of verified smart contracts and reports how it fared on each.

- `src/` is the library, written and proved in Verus: which contracts are
  analysed and from which files, how pyrometer is run and paced, what its output
  says, and how results are written down and counted.
- `app/` is the program around it: arguments, files, processes, the terminal.
- `tests/` runs the library on concrete values.

What the proofs take on trust are the calls into other crates and into the
standard library, each behind one small item with its contract:

| Item | Call |
| --- | --- |
| `output::captured_group` | `regex::Regex::captures` |
| `output::pattern_matches` | `regex::Regex::is_match` |
| `sources::read_source_code_metadata` | `serde_json::from_str` for Etherscan's `SourceCodeMetadata` |
| `settings::local_time` | `chrono::Local::now` and its formatting |
| `settings::available_cpus` | `num_cpus::get` |
| `text`, on `String::push` | `String::push` |

Durations and shares are floating point numbers, and are computed in `app/`. The
library takes durations to the millisecond and shares as text.
