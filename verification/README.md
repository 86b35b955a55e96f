# etesync

The client side of the EteSync journal protocol, verified with Verus.

* `src/` is the library: journals, entries and user infos with their sealing and
  checking, and the HTTP requests of the service as values. Every executable function
  with a body carries a contract.
* `app/` sends those requests with `reqwest` and turns JSON into values with `serde`.
* `tests/` runs the library, with a toy cipher in place of a real one.

The ciphers are supplied by the user of the library, through the traits `CryptoManager` and
`AsymmetricKeyPair`, whose methods promise nothing. The laws that rest on a cipher doing what
it is for, such as that what was put into a journal comes out of it, say so in their
`requires`.

Trusted without proof are the contracts of the functions marked `external_body` in
`codec.rs` (Base64 and hexadecimal), `web_address.rs` (URLs) and `request.rs` (header maps).
