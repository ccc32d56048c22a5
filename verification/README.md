# tectonic_driver

A driver for the Tectonic TeX engine: it takes a document through TeX, BibTeX and
xdvipdfmx, reruns TeX until the auxiliary files have settled, saves the outputs,
and writes Makefile rules.

`src/` is a Verus library. It decides what is to be done and proves what it
decides; it runs no engine and touches no file. A session
(`ProcessingSession`) asks for one action at a time, is told what came of it, and
goes on from there. `src/course.rs` is the mathematical model that its contracts
refer to, and the modules that end in `_laws` prove what holds of every session.

`app/` is the command-line program around it: it reads the arguments, opens files
and bundles, runs the engines, and shows the messages.

Names and paths are byte strings, as on Unix.
