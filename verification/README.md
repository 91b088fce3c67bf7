# fungi_daemon

The logic of the Fungi daemon, verified with Verus: service files and the
manifests they resolve to, the registry of managed services, the
service-control protocol's requests and bounded log responses, device
service snapshots, remote service access and the TCP tunnel rules behind
it, connection listings, listen addresses and startup settings, recipes,
wasmtime launches and the mDNS device list.

Service files are read in the `fungi: service/v1` format, as a YAML
document or as YAML front matter. The older `apiVersion` / `kind:
ServiceManifest` format is not read. Paths in manifests follow Unix rules
(`/` separators), whatever the host.

- `src/` is the library. Every function in it is verified against its
  `requires`/`ensures`; the `law_*` proof functions state properties that
  span several functions (a stored manifest reads back as it was, the
  registry's upsert and remove, removing a tunnel rule undoes adding it,
  stale snapshot saves are refused, restored listeners are new and
  complete, planned forwarding ports are fresh, ...).
- `tests/` runs the library on concrete values.
- `app/` holds what stays outside verification: command-line options, file
  and socket I/O, the serde forms of the library's types, the tasks behind
  tunnel rules, and the docker endpoint lookup.

Calls into `serde_yaml`, `ulid`, `typed-path` and `libp2p` (multiaddress
protocols and text, peer id parsing) go through small wrappers whose
contracts say what those crates do; they are the only trusted code besides
two specifications of `std` (`String::push`, `SystemTime::clone`).
