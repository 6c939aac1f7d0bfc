# permute

Permute generates many variations of an audio file by running it through
random chains of audio processors.

`src/` is the verified core, checked with Verus:

- `process`, `display_node`: the processor catalogue and its display names.
- `random_process`, `prototype`: random processor chains and which plan each
  processor uses.
- `files`: output file names and numbered run directories.
- `processors`: the integer side of the processors: channel layout of sample
  buffers, trimming, reversal, the granular stretch and the cross grain
  layout.
- `processing`: a reversal and a delay line over integer samples.
- `cache`, `output_table`: least-recently-used caches and a sorted output
  table.
- `state`, `state_dto`, `node_state`: the state of the desktop and Node front
  ends and what their user interfaces show.
- `permute_files`, `cli`: run settings, the records of outputs, and the
  command line tool's choices and report.

`app/` is the command line tool around it: argument handling, reading and
writing audio files, the floating point signal processing, threads and the
desktop front end's file handling.
