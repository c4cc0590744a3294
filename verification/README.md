# daft_backends

Back ends of a data engine, with their contracts proved by Verus.

The library in `src/` holds the decisions: what a URL names, what is asked of the
storage service, which failures are tried again and when, how the parts of an upload
are numbered and put together, which calls a shuffle client makes and with which
numbers. It does no input or output. The crate in `app/` runs those decisions over
the network.

| module       | what it decides                                             |
|--------------|-------------------------------------------------------------|
| `config`     | settings, their displays, the endpoint and region in use    |
| `error`      | what the service answered and what callers see of it        |
| `retry`      | whether and when a request is made again                    |
| `location`   | the bucket and the key of an `oss://` URL                   |
| `listing`    | requests for listings, and the pages made of the answers    |
| `client`     | the client of the storage service, and its settings         |
| `source`     | how the client of the store is set up                       |
| `operations` | what each operation asks, and what its answer comes to      |
| `storage`    | laws: what a service that keeps its objects gives back      |
| `multipart`  | uploads in parts                                            |
| `celeborn`   | the shuffle client                                          |
| `rule`       | optimization rules                                          |
| `text`       | texts: digits, searches, joins                              |

Public proof functions whose names start with `law_` state what holds across several
functions. What is taken on trust from other crates and from the standard library is
marked `external_body`, with a comment that says what is claimed.
