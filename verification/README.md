# dav-office-portal

A web portal that gives users a browser-based file manager over WebDAV, with
in-browser editing of `.docx`, `.xlsx` and `.pptx` files through OnlyOffice
Document Server. Users sign in with OpenID Connect. The portal acts on the
WebDAV server as the user, never outside the user's own collection, and signs
short-lived tokens with which the document server fetches and saves single
files.

- `src/` is the library, verified with Verus: sessions and their encryption,
  file tokens, configuration, the OpenID flow, WebDAV requests and listings,
  the editor config, and what each route decides.
- `app/` is the program around it: the HTTP server, the requests it makes, the
  environment, and the metrics registry.
- `tests/` run the library with its outside crates.

## Configuration

| Variable | Default | Purpose |
|---|---|---|
| `BIND_ADDR` | `0.0.0.0:3000` | Listen address (public) |
| `METRICS_ADDR` | `0.0.0.0:9090` | Listen address (Prometheus and health) |
| `PUBLIC_BASE_URL` | (required) | Origin the browser uses to reach the portal |
| `OIDC_ISSUER` | `https://auth.example.com` | OpenID provider |
| `OIDC_CLIENT_ID` | `office-portal` | OpenID client id |
| `OIDC_CLIENT_SECRET` | (required) | OpenID client secret |
| `OO_DOCUMENT_SERVER_URL` | (required) | OnlyOffice Document Server origin |
| `OO_JWT_SECRET` | (required) | Shared secret for editor configs |
| `FILE_JWT_KEY` | (required) | 32-byte key for file tokens, hex or base64 |
| `SESSION_KEY` | (required) | 32-byte key for the session cookie, hex or base64 |
| `DAV_BASE_URL_TEMPLATE` | `https://dav.{domain}` | WebDAV base URL; `{domain}` is the domain of the user's email |
