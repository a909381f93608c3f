# spora

A build tool for JVM projects: it reads `spora.toml`, resolves Maven
dependencies into `lib/`, installs the configured JDK or Kotlin compiler,
compiles incrementally and packages a plain, flat or fat jar.

- `src/` is the verified library: Maven coordinates and POM dependency
  extraction, the content-addressed store index and the lock file, the
  incremental build plan (what to recompile, which fingerprints to record),
  the version catalog lookup and download URL, archive and checksum decisions,
  flat-jar manifests and the merging of dependency jars into a fat jar.
- `app/` is the `spora` program around it: argument handling, files, network
  downloads, running `javac`/`jar`, progress output.
- `tests/` exercises the library on concrete values.
