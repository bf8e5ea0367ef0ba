# biome_svc

Verified building blocks of a service supervisor:

- `service_group`, `service_bind`, `binding_mode`, `health_check`: the
  names and settings of services (`redis.default@acme`,
  `cache:redis.default`, `relaxed`/`strict`, health-check intervals),
  with parsers whose contracts state exactly which texts they accept and
  what they read from them.
- `service_table`, `launcher`, `sup_version`: the launcher's table of
  service processes and its decisions (how to answer the supervisor's
  exit, the order of a tick's steps and of shutting down, which services
  have ended, where a supervisor message goes, which supervisor binary to
  run and whether its version is supported).
- `binds`, `text_order`, `pkg_path_for`: what templates see of bound
  service groups, ordered by bind name, and the `pkgPathFor` helper.
- `pkg_cli`: decisions of `bio pkg` commands made from their options.

`src/` is verified with Verus; `app/` holds the serde forms of the types and
the process-level work of the launcher, which hand plain values to the
library and carry out what it decides.
