# bbox

The verified core of an OGC API web server for geodata, written in Verus.

`src/` is the library, checked by Verus. Its public functions carry contracts, proved
except for the three trusted calls named below:

- `inventory`, `feature_endpoints`, `service`: the feature collections of a service and the
  documents built from them (collections, STAC catalog, landing page links, conformance
  classes, items pages and their paging, search results), and the parsing of feature query
  strings.
- `ogcapi`, `config`, `filter_params`: the documents and settings these work on.
- `error`, `httperror`: status codes and JSON bodies of failed requests.
- `store`: tile paths and the selection of a tile store.
- `pg_ds`, `frontend`: schemas of a PostGIS search path and viewer asset paths.
- `text`, `assoc`: strings and string-keyed maps with their specifications.

Calls into `chrono`, `serde_urlencoded` and `actix-web` stand behind small trusted
functions whose contracts name what those crates compute.

`app/` holds what Verus does not check: serde copies of the documents, actix-web error
handling and endpoints, the asynchronous calls of data sources (scanning, items pages,
search), PostGIS pools and the asynchronous tile store traits.
