# FileSec

The verified core of the FileSec desktop application: what its screens show and
what each step of the user changes, the rules of the encrypted store, and the
protocol of direct transfers.

* `src/` — the library. It is verified with Verus, but for the calls into outside code
  listed below, whose contracts are believed.
* `tests/` — tests of the library on concrete values.
* `app/` — the application around it: the window, files, sockets, and the
  cryptographic core.

The library holds plain values. Whatever it decides comes back as a value for
the application to carry out: an `Effect` of a step, the next stage of a job, or
the records of a transfer.

| Module | Subject |
|---|---|
| `app`, `session`, `forms` | the application's state, and what each step changes |
| `requests`, `sharing` | when a change to a vault or an export is in order |
| `report`, `unlocking` | what background work reports, and its order |
| `browse`, `select`, `moving`, `trash`, `adding`, `path` | the file browser |
| `store`, `anchors`, `wipe` | the registry, crash-safe changes of the store, rollback protection |
| `net` | transfer codes, frames, admission, both sides of a transfer |
| `transfer`, `contacts`, `screens`, `theme` | what the screens show |
| `mount` | a vault as a read-only tree of files |
| `passphrase`, `passkey`, `autounlock`, `prefs` | settings |
| `text`, `text_set`, `order`, `names`, `dates`, `fingerprint`, `secret` | basics |

## What is believed

Seven contracts speak of code that Verus does not read, and three names stand for
results that only that code can say:

| Item | Outside function | Name |
|---|---|---|
| `text`: `String::push` | `String::push` | |
| `text::to_lowercase` | `str::to_lowercase` | `unicode_lowercase`, beyond ASCII |
| `text::is_whitespace` | `char::is_whitespace` | |
| `text::is_alphanumeric` | `char::is_alphanumeric` | `unicode_alphanumeric`, beyond ASCII |
| `text::from_utf8` | `std::str::from_utf8` | |
| `trash::from_utf8_lossy` | `String::from_utf8_lossy` | `utf8_lossy` |
| `secret::zeroize` | `zeroize::Zeroize::zeroize` | |
