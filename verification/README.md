# QuestDB sink

Turns Apache Iggy messages into QuestDB rows. The library under `src/` holds the logic,
and Verus proves what its contracts say; `app/` holds what runs around it: connections,
tasks, deserialization and logs.

| Module | What it holds |
| ------ | ------------- |
| `mapping` | From a message to a row: `Mapping::append_row` and its parts. |
| `array`, `uuid`, `timestamp`, `json`, `columns`, `message` | The values that rows are made of. |
| `row` | The entries that a row asks for, and how far they got. |
| `client` | The QuestDB client's buffer and errors. |
| `batch`, `preview` | The rows of a batch, what is counted and what is logged. |
| `consume` | Which batch comes next, and what it all comes to. |
| `flush` | Which failures may be retried, and what the sink reports. |
| `sink`, `span` | The configuration and the sink made from it. |
| `text` | Case, equality and decimal numbers. |
| `laws` | What holds of the library as a whole. |

What the proofs rest on besides Verus is declared next to its use: the buffer and errors of
`questdb-rs` and lower case in `client`, JSON text and doubles in `json`, UTF-8 decoding in
`mapping`, and spans of time in `span`.

A message whose timestamp is zero has none, and its row is stamped by the server. Arrays and
objects are stored as columns of their own type even where they are listed as symbols. Two
cells of one row for the same column are handed to the client as they come; the columnar
buffer keeps the first.
