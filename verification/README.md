# aoide_library

The verified core of a music library for DJs: the parts of organizing and
searching a music collection that are pure computation, with their contracts
proved by Verus.

- `digest`, `dir_digest`: change-detection fingerprints of files (fed into a
  plain BLAKE3 hasher that only the library can make) and the
  directory digests of a depth-first walk over a music folder. The walk itself
  is driven step by step by the caller; the library decides what to digest and
  when a directory is finished, and keeps a ghost history of the walk. Proof
  functions state that, once a depth-first walk has finished, each directory
  that holds entries has been handed out exactly once, with a digest over
  exactly its own entries.
- `dir_walk`: a mathematical model of such a walk, with the same laws stated
  for every walk whose subtrees come in one stretch each.
- `tracker`: how the tracked status of a directory changes when a new digest
  or status arrives, and the counts per status.
- `track_search`: parsing of the search input (BPM bounds `+80 -120`, hashtags
  `#label`, free terms) and the memo state that brings a view of the search
  results up to date.
- `media_util`, `import`: actors, key signatures, content types and import
  options.
- `tag_import`, `vorbis`, `id3_frames`: track metadata from file tags,
  following the MusicBrainz Picard mapping: titles, actors, album, release
  date (year tags such as `2020`, `202007`, `2020-07-31`), indexes (`N/M`),
  key, and faceted labels, where one field may hold several genres separated
  by a configured separator (`Pop;Hip-Hop/Rap;Nu Metal`). Vorbis comments are
  read from FLAC tags; ID3v2 tags come as their frames in plain values.
- `media_source`: the path, content type, digest, channel count, encoder and
  artwork columns of a media source row, read and written, with proofs that
  a stored media source reads back as written.
- `update`: the frontend's decisions on library events and track search
  actions: how the mode of the view changes and what the caller does next.
- `track`, `artwork`, `playlist`: data as the track list shows it (year range,
  labels, thumbnails) and playlist bookkeeping.

`app/` is a small command line program around the library: it walks a folder
with `walkdir` and prints directory digests, reads FLAC tags with `metaflac`
and ID3v2 tags with `id3` (handing the library their frames as plain values),
and tries search inputs.
