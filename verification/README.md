# tauri-plugin-vnidrop-share, verified core

The logic of a native share plugin, proved with Verus.

- `src/models.rs`: the share request, its limits, `validate`,
  `has_shareable_content` and `combined_text`, each specified by a spec function.
- `src/url.rs`: the web-URL rule (no control or white-space characters, an
  `http`/`https` scheme in any ASCII case, a host).
- `src/base64_len.rs`: the decoded-size estimate of padded Base64 text.
- `src/temp_file.rs`: decoding a shared file and reducing its name to the
  final path component (Base64 decoding is the `base64` crate's, the path
  split is std's `Path::file_name`); the kept name never holds a `/` outside
  Windows verbatim paths, and for a simple path it is the last segment.
- `src/platform/`: what macOS and Windows share: items, subject, title, text,
  web link and storage paths, and the macOS delegate's step per event.
- `src/laws.rs`: properties that span the functions above.
- `app/`: serde models, error messages, temporary files and the AppKit and
  WinRT calls, which Verus does not see.
