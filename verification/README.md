# multitrade

The logic of MultiTrade, a desktop program that links several brokerage
accounts (Fennel, Public, Robinhood, Tastytrade, Webull, Lighthorse) and places
one order across them, as a library verified with Verus.

- `src/` is the verified library: the broker registry and the credential
  record, the legacy credential import, the account lists and order plans of
  each broker, request signing and encoding, the login conversations and the
  retry rules of authorised requests. Calls into hashing, encryption and
  encoding crates stand behind small trusted wrappers whose contracts say what
  the crates document.
- `tests/` runs the library on concrete values.
- `app/` is the desktop program around it: the Tauri commands, the encrypted
  vault, and the HTTP clients of the brokers, which hand the library plain
  values and act on what it decides.
