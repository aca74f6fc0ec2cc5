# scryer_plugins

The verified core of three Scryer plugin components:

- `rqbit`: the RQBit download client — settings and API URLs, info-hash
  normalisation, torrent states and paths, queue and completed entries, add
  requests (inline base64 torrents or source URLs), control requests, version
  checks and the seeding-goal removal rule.
- `aninzb`: the AniNZB indexer — the fixed API configuration, request pacing,
  query planning and URL building, item mapping, round-robin merging without
  duplicates, and UTC timestamp formatting.
- `pdk`: the plugin development kit — the bridge from download-client commands
  to a plugin's legacy JSON functions, and the checks on the native host-call
  ABI's answers.

`src/` is verified with Verus; every public function states its result in its
contract, and the laws of the library are public proof functions. `text`
holds the string helpers they share (trimming, ASCII case, decimal formatting
and integer parsing, each with an exact specification).

`app/` holds what stays outside verification: the host services (settings,
plugin state, HTTP, the clock, the WebAssembly host ABI), the JSON of the
plugin protocol, and the floating-point values (download rates, progress,
seed ratios) that the library receives already computed.

`tests/` runs the library on concrete values.
