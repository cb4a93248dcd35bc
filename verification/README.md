# Crisp

Crisp layers a sound with a copy of itself that was ring modulated with filtered noise, which adds a
bright top end to low bass sounds.

The library in `src/` holds what the effect decides and computes, with its behaviour stated in
contracts and proved by Verus. Floating point arithmetic is left to an implementation of the trait
`Dsp`: adding and multiplying samples, designing and running a filter, and turning a random word
into a sample.

- `crisp` is the effect: its state, its life cycle and its signal path.
- `flow` says what the signal path does, as relations between what goes in, what the controls say
  and what comes out.
- `laws`, `signal_laws` and `independence` prove what follows from these relations, such as that
  bouncing is deterministic, that the channels are separate, that the output gain is a plain gain,
  and that it cannot be heard how a sound was cut into buffers.
- `dsp` has the traits for sample arithmetic, filters and parameter values.
- `pcg` is the noise generator.
- `params` describes the parameters that a host is to offer, and how they are shown and read.
- `text` and `float_bits` show and read frequencies and gains.
- `config` has the fixed figures and plain settings.

The signal path does not depend on what a sample is. Its contracts say which operations were carried
out on which operands, and which parameters were moved, how often and in which order. They assume
nothing of the results. That the steps can be counted rests on the controls being handed on from
each step to the next: the library does not copy them, and nobody else may move the parameters
meanwhile.

The laws need more, and each of them names it:

- Most of them take the operations on samples to be deterministic. Some add a fact of arithmetic,
  such as that multiplying with one changes nothing.
- Two runs are compared where the controls said the same in both. That is proved for controls whose
  answers depend on the position that they carry.
- Cutting a sound at any frame, and comparing two output gains, need controls in which moving one
  parameter leaves the others alone.

The plugin in `app/` runs the effect on single precision samples inside of a host. It has the
arithmetic on them in `app/dsp.rs`, and it stands on `nih_plug_core`, the part of the plugin
framework that `nih_plug_egui` builds on. The smoothers of that framework keep their position
themselves, so of the laws on two runs the plugin meets those on what was heard.
