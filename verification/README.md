# spotdora

The verified core of Spotdora, a GTK4/Libadwaita Spotify client, written in
Verus.

- `src/version.rs` – the numbers of a release version and which of two
  versions is newer, with the laws of that order.
- `src/updater.rs` – what a check for updates concludes from GitHub's HTTP
  status and latest release.
- `src/settings.rs` – the mapping between stored settings and the dialog's
  rows, the theme's colour scheme, and what the updates page shows.
- `src/callback.rs` – the address of the login callback listener, the query
  of a callback request (or of a redirect URL entered by hand) and the answer
  to it.
- `src/oauth.rs` – the two OAuth clients, their login URLs, the scopes asked
  for, and how granted and refreshed tokens become the saved credentials.
- `src/text.rs` – character classes, splitting and small string helpers.

`app/` holds the I/O around it: the GitHub request, the token requests and the
callback listener, and the GTK dialog.
