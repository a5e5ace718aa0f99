# hf_downloader

A desktop downloader for [Hugging Face](https://huggingface.co) repositories, with its logic written
and proved in [Verus](https://github.com/verus-lang/verus).

- `src/` is the library. It reads addresses, builds requests and understands replies, keeps download
  tasks, decides every step of a download, and holds the state of the window. It never waits, draws
  or touches a disk or a network.
- `app/` is the program around it: the window, the requests, the files, the threads.
- `tests/` runs the library on concrete values.

| module | what it holds |
| --- | --- |
| `text`, `path`, `table` | strings as sequences of characters, file system paths, an ordered map |
| `hf_api` | addresses of repositories, file lists, the access token |
| `i18n`, `platform` | languages, the system locale, fonts |
| `download`, `engine` | tasks and their files, and what the user can ask of them |
| `transfer` | the download of one file as a state machine |
| `runs` | what holds of every run of that machine |
| `session`, `config` | records of downloads in progress, settings |
| `ui`, `display`, `edit`, `format` | the state of the window, and what it shows |

What a download promises is stated in `runs`: at most four attempts with pauses of 1, 2 and 5 seconds
between them, success of an attempt in which nothing goes wrong, also after up to three that failed, a
disk that always holds a beginning of the file, a finished file that is whole, and a cancellation that
is honoured within three steps.
