# s3_share

A file-sharing server on top of an S3 bucket, with its logic verified by Verus.

Users register, log in with signed tokens, upload shares (in one request, or file by file and part
by part), look at shares, fetch files and ranges of files, and keep an encrypted list of their
shares and an encrypted profile picture. An administrator sees all users and removes shares and
users. A sweep removes what is expired.

## How it is built

The library does no I/O. Each request is a function of what it has heard so far: it names the next
action (read an object, store one, list a prefix, ask for a fresh id or the time, ...) or the answer
to the client. The caller performs the action, appends the reply to the history and asks again. So
every decision of the server is a pure function with an exact contract, and properties of whole
requests are proved over their histories.

- `src/api.rs`: the requests, and the one function that answers all of them.
- `src/wire.rs`: answers as statuses, headers, texts and JSON documents.
- `src/protocol.rs`: actions, replies, answers.
- `src/gate.rs`, `src/token.rs`, `src/session.rs`: who may do what.
- `src/account.rs`, `src/profile.rs`, `src/devices.rs`, `src/admin.rs`: accounts and administration.
- `src/uploads.rs`, `src/sharing.rs`, `src/shares.rs`, `src/deletion.rs`: shares.
- `src/cleanup.rs`: the sweep.
- `src/storage.rs`, `src/parts.rs`, `src/assoc.rs`: objects in memory, or in a bucket.
- `src/json.rs`, `src/crypto.rs`, `src/clock.rs`, `src/ids.rs`, `src/media.rs`: the calls into other
  crates, each with the contract that is taken on trust.
- `src/text.rs`, `src/number.rs`, `src/hex.rs`: text, numbers, hexadecimal.
- `src/laws_*.rs`: what holds across functions: who is served, what a request may change, that what
  is saved comes back, what the sweep leaves, and that a request whose replies fit is never at a
  loss.

`app/` is the program around the library: routes, the loop that performs actions on the bucket, and
the form of answers on the wire. The frontend's files are read from the directory that `ASSET_DIR`
names.
