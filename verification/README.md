# Aster

The core of a Markdown editor, with its behaviour stated in contracts that Verus proves.

- `document`, `undo`, `span`, `rope`: the text that is edited, its selection, its history and
  where it changed
- `commands`, `editor`, `editor_keys`, `editor_frame`: keys, pointer, clipboard, platform text
  input, the find panel, and what one frame shows
- `document_laws`, `editor_laws`, `cache_laws`: what holds over more than one step, such as that undo takes
  back a whole composition
- `search`, `utf16`, `text`, `highlights`, `projection`, `editor_text_layout`: searching,
  counting and laying out text
- `file_explorer`, `inline_markdown`, `syntax`: the outline and the colors of the source
- `root`, `paths`, `dropped_files`, `quicklook`: files, links and the window
- `theme`, `system_colors`: color palettes

`app/` holds the GPUI views, dialogs, settings and file access around the library.
