# compare_dirs

Compares all files of one directory with another, recursively. Every regular file under `DIR1`
is looked for under `DIR2` at the same relative path and compared with what is there, byte for
byte or by one of twelve hash algorithms. A file that is missing can be searched for under
another name. Results are shown as status lines or as a progress bar, in the order of the files,
however many workers check them.

The rules of the program are a library that Verus verifies; the program around it reads the
disk, walks directories, runs threads and writes to the terminal.

| Module | What it holds |
|---|---|
| `units` | sizes and times as they are written on the command line |
| `options` | everything else that the command line asks for |
| `algo`, `hashing` | the hash algorithms, their names and their digests |
| `compare` | comparing two files |
| `search` | searching for a renamed file |
| `check` | checking one file, with its spinners |
| `cache` | remembering digests, and the file in which they are kept |
| `queue` | sharing files among workers and taking the results in order |
| `run` | the order of a run, with one worker or with many |
| `report`, `status`, `style` | what is written to the terminal |
| `signals`, `spinner` | interrupting and suspending a run, and the turning cursor |
| `paths` | relative names, counterparts, and which files are checked |
| `text`, `unicode` | numbers, excerpts, white space and letter case |

A step that needs the outside world is a decision function: it takes what happened and says what
to do next. Theorems about whole runs are the public proof functions whose names begin with
`law_`.

Limits: a file is read into memory to compute its digest. Paths follow the rules of Unix, and the
program does not build for anything else.
