# editor_core

The decisions of a collaborative code editor, verified with Verus.

- `text`, `text_order`, `decimal`, `collections`, `clock`, `anchor`: characters and byte offsets,
  the order of texts, numbers in writing, small maps and sets, versions and positions.
- `url_links`, `file_links`, `hover_links`: what the pointer finds in text, and which links are shown
  and followed.
- `inlay_hints`, `hint_refresh`, `hint_hover`, `hint_laws`: which hints are shown, when they are asked
  for, and what the pointer finds in them.
- `brackets`, `editor`: the brackets around the cursor, and the state that the modules share.
- `user`, `user_store`: users, contacts and requests between them.
- `auto_update`: releases of the application and of its remote servers.
- `collab`, `context_server_tool`, `edit_prediction_registry`, `onboarding_modal`: smaller parts.

`app/` connects these decisions to network, files and channels. URLs are recognised by the `linkify`
crate; all that is taken on trust is what `url_links` says of it, and `String::push`.
