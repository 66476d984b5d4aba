# api

Server-side logic of a small skin server (skins, capes and elytras for
players), written in Verus.

- `src/` is the verified library: permission flags, users, groups and their
  quotas, textures and their Base64 form, the authorization decisions of the
  server functions, the login-form checks, and the texture preview renderer
  (crop, copy and blend on RGBA rasters, PNG in and out).
- `app/` is the plain Rust around it: serde copies of the library's types,
  the SQLite store (sqlx), and the server functions that read and write the
  store and hand every decision to the library.
- `tests/` runs the library on concrete values.
