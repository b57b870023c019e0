# queue_sim

A simulator of queueing networks. Items arrive at creating elements, are
served by serving elements with a number of workers, and leave at disposing
elements; each element routes what it finishes to its receivers at random,
in turn, or to the receiver with the fewest free places.

- `src/` is the verified library: element types and names, each element's
  counters and pending times (held as `u32` keys ordered as the `f32` times
  they stand for), the actions of each element type, routing, the event log,
  building elements from their descriptions, and the texts of the log.
- `app/` is the web server around it: requests and responses, drawing
  delays, measuring time and memory, and every floating-point figure.
- `tests/` exercise the library on concrete values.
