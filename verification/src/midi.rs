//! MIDI commands and their delivery to the software synthesizer.
use vstd::prelude::*;
use rustysynth::Synthesizer;

verus! {

/// The synthesizer that renders the decoded music. Its state is opaque here.
#[verifier::external_type_specification]
#[verifier::external_body]
pub struct ExSynthesizer(Synthesizer);

/// One MIDI command sent to a synthesizer channel.
#[derive(Clone, Copy, Debug, PartialEq, Eq)]
pub enum MidiCommand {
    /// Release `key` on `channel`.
    NoteOff { channel: i32, key: i32 },
    /// Start `key` on `channel` with `velocity`.
    NoteOn { channel: i32, key: i32, velocity: i32 },
    /// A raw channel message: status `command` with two data values.
    Message { channel: i32, command: i32, data1: i32, data2: i32 },
    /// Nothing is sent.
    Nothing,
}

/// The data values of a raw message fit in a byte, as those of MUS events do.
pub open spec fn midi_command_in_range(command: MidiCommand) -> bool {
    command matches MidiCommand::Message { data1, data2, .. } ==> 0 <= data1 <= 255 && 0
        <= data2 <= 255
}

/// What sending `command` hands to the synthesizer: the command itself, or
/// nothing for `Nothing`.
pub open spec fn sent_for(command: MidiCommand) -> Seq<MidiCommand> {
    if command is Nothing {
        Seq::empty()
    } else {
        seq![command]
    }
}

/// Sending a command hands exactly that command to the synthesizer, whatever
/// it is (a note off, a note on or a raw message); only `Nothing` hands over
/// nothing.
pub proof fn lemma_every_command_is_sent(command: MidiCommand)
    ensures
        !(command is Nothing) ==> sent_for(command) == seq![command],
        command is Nothing ==> sent_for(command).len() == 0,
        sent_for(command).len() <= 1,
{
}

/// A synthesizer together with the list of the commands handed to it so far.
pub struct MidiSink {
    synth: Synthesizer,
    sent: Ghost<Seq<MidiCommand>>,
}

impl MidiSink {
    /// The commands handed to the synthesizer, oldest first.
    pub closed spec fn sent(&self) -> Seq<MidiCommand> {
        self.sent@
    }

    /// A sink around `synth` that has sent nothing yet.
    pub fn new(synth: Synthesizer) -> (r: MidiSink)
        ensures
            r.sent() == Seq::<MidiCommand>::empty(),
    {
        MidiSink { synth, sent: Ghost(Seq::empty()) }
    }

    /// The synthesizer, to render what it was sent; nothing is sent through it.
    pub fn synthesizer(&mut self) -> (r: &mut Synthesizer)
        ensures
            final(self).sent() == old(self).sent(),
    {
        &mut self.synth
    }

    /// Calls `rustysynth::Synthesizer::note_off` and records the command as
    /// sent. The method returns for every argument (a channel outside `0..16`
    /// is ignored by it); what it does to the synthesizer's voices is not stated.
    #[verifier::external_body]
    fn note_off(&mut self, channel: i32, key: i32)
        ensures
            final(self).sent() == old(self).sent().push(MidiCommand::NoteOff { channel, key }),
    {
        self.synth.note_off(channel, key);
    }

    /// Calls `rustysynth::Synthesizer::note_on` and records the command as
    /// sent. The method returns for every argument (a zero velocity releases the
    /// key, a channel outside `0..16` is ignored); what it does to the
    /// synthesizer's voices is not stated.
    #[verifier::external_body]
    fn note_on(&mut self, channel: i32, key: i32, velocity: i32)
        ensures
            final(self).sent() == old(self).sent().push(
                MidiCommand::NoteOn { channel, key, velocity },
            ),
    {
        self.synth.note_on(channel, key, velocity);
    }

    /// Calls `rustysynth::Synthesizer::process_midi_message` and records the
    /// command as sent. Unknown commands and channels are ignored by it; with
    /// data values of one byte its arithmetic (the percussion bank offset, the
    /// pitch-bend value) cannot overflow, so it returns. Its effect on the
    /// synthesizer's channel state is not stated.
    #[verifier::external_body]
    fn process_midi_message(&mut self, channel: i32, command: i32, data1: i32, data2: i32)
        requires
            0 <= data1 <= 255,
            0 <= data2 <= 255,
        ensures
            final(self).sent() == old(self).sent().push(
                MidiCommand::Message { channel, command, data1, data2 },
            ),
    {
        self.synth.process_midi_message(channel, command, data1, data2);
    }
}

/// Sends `command` through `sink`: each variant goes to the synthesizer method
/// of the same name, and `Nothing` sends nothing.
pub fn send_midi_command(sink: &mut MidiSink, command: MidiCommand)
    requires
        midi_command_in_range(command),
    ensures
        final(sink).sent() == old(sink).sent() + sent_for(command),
{
    match command {
        MidiCommand::NoteOff { channel, key } => sink.note_off(channel, key),
        MidiCommand::NoteOn { channel, key, velocity } => sink.note_on(channel, key, velocity),
        MidiCommand::Message { channel, command, data1, data2 } => sink.process_midi_message(
            channel,
            command,
            data1,
            data2,
        ),
        MidiCommand::Nothing => {},
    }
    assert(sink.sent() =~= old(sink).sent() + sent_for(command));
}

} // verus!
