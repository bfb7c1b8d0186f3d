# enpass

Reads secrets from an [Enpass](https://www.enpass.io) vault. A secret is named by
a reference: the title of an item, or a title, a slash and the label of a field.
Where several items share a title, a filter on tags, category, flags or other
fields tells them apart.

- `src/` is the library, verified with Verus: unlocking a vault step by step,
  turning the rows of its database into fields and tags, resolving a reference,
  and reading a field that is sealed with AES-256-GCM. `src/laws/` states what
  holds of the whole, for all vaults and requests.
- `app/` reads the files, the environment and the database, and offers the
  asynchronous interface.
- `tests/` runs the library on concrete vaults.

Functions marked `external_body` call other crates (`aes-gcm`, `hex`, `pbkdf2`
with `sha2`, `shellexpand`) or the standard library. What their contracts claim
is taken on trust; each says so in its comment.
