# service

The core of a visual regression testing service, verified with Verus.

A build brings screenshots, or a built Storybook whose stories are rendered in
a headless browser. `src/` holds the rules and decisions of the service, every
function of it with a contract that Verus proves:

- `render`: driving a story through the browser until it can be captured, what
  the answers of the page mean, unpacking an uploaded bundle, listing its
  stories, and serving it from a cache;
- `screenshots`, `intake`, `transfer`, `ids`: content hashes, the validation of
  pictures, taking them in, and the keys under which they are stored;
- `storage`: uploads to an S3 compatible store, and moving local files there;
- `tenants`, `users`: who may do what;
- `text`, `json`, `paths`, `os_path`, `order`, `span`: what these are built of.

Public proof functions whose names begin with `law` state what holds across
functions. Functions marked `external_body` call the crates `serde_json`,
`image`, `sha2`, `hex`, `uuid`, `zip` and `object_store`; their comments say
what is taken from those crates without proof.

`app/` joins the library to the browser, the file system, the object store and
the database. `tests/` runs the library on concrete values.
