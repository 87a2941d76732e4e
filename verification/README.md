# mongo_oplog

Reads MongoDB oplog entries into typed operations, with the parsing verified
by Verus.

- `src/document.rs`: BSON values and ordered documents, with typed reads.
  The driver's `bson` documents are converted into this model in `app/`.
- `src/float_bits.rs`: a floating point number held by its bits, which
  compares as a floating point number.
- `src/op.rs`: the `Op` type and how an entry is read from a document.
- `src/errors.rs`: `OpLogError` and its descriptions.
- `src/transform.rs`: `OpTransform` and the namespace filter, which uses the
  `regex` crate.
- `app/`: tailing the oplog with `mongo_driver` on a thread of its own, and
  turning the driver's `bson` documents into the library's documents.
