# auto_publish

Publishes the final reply of a conversational agent turn to a Nostr relay, once
and durably, or keeps it as a draft.

The library in `src/` is verified with Verus. It makes every decision and does
no I/O: each operation is a small machine whose stage names what is asked of
the file system, the network or the clock, and which goes on with the answer.

- `turn`, `turn_laws`: what a turn has produced, and the reply in it.
- `publish`: what becomes of a turn that is over.
- `outbox`, `outbox_laws`: the outbox of one identity at one relay, and which
  records belong to it.
- `record`, `event`, `names`, `files`, `files_laws`: records, signed events, file
  names, and what answers of the file system mean.
- `slot`, `inventory`, `persist`, `removal` and their laws: loading, listing,
  storing and removing records.
- `delivery`, `flush` and their laws: sending events, with retries, and
  flushing the outbox.
- `fault`: everything that can go wrong, and what is said of it.
- `outside`: the calls into other crates, with what is taken for granted of them.
- `text`, `fit`: text as characters and as UTF-8 bytes.

The laws are public proof functions whose names start with `law_`.

`app/` runs the machines against a real file system and a real relay.
