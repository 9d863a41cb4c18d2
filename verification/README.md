# events-aggregator

Takes cluster events from NATS, writes each as one line of compact JSON, and exports the lines in
batches to Loki or to a pair of size-limited files.

- `src/` is the verified library: message processing (`message`), the answer to a message (`reply`),
  batching, delivery with retries, file rotation and the Loki request (`exporter`), and the JSON text
  that they share (`json`).
- `app/` is the program around it: command line, NATS, files, HTTP, channels and clocks.
- `tests/` runs the library with the real outside crates.

The library decides, the program acts: `exporter::batch::Batcher` and `exporter::flush::Delivery`
take what happened and return what to do next.
