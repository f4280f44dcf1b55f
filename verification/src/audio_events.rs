//! Audio cues the simulation raises; a playback collaborator on the host
//! side drains the channel once per frame and plays the samples.

use vstd::prelude::*;

verus! {

#[derive(Debug, Copy, Clone, Hash, PartialEq, Eq, Structural)]
pub enum AudioEvent {
    MoneyGained,
    UpgradeBought,
    UpgradeDenied,
    DoughCreated,
}

impl AudioEvent {
    /// The sample file the host should play for this event.
    pub fn to_sound_file(&self) -> (r: &'static str)
        ensures
            *self is MoneyGained ==> r@ == "res/audio/75235__creek23__cha-ching.wav"@,
            *self is UpgradeBought ==> r@ == "res/audio/611800__metalfortress__confirm.wav"@,
            *self is UpgradeDenied ==> r@
                == "res/audio/220187__gameaudio__loosedeny-casual-1.wav"@,
            *self is DoughCreated ==> r@
                == "res/audio/330997__rudmer_rotteveel__stick-hitting-a-dreadlock-small-thud.wav"@,
    {
        match self {
            AudioEvent::MoneyGained => "res/audio/75235__creek23__cha-ching.wav",
            AudioEvent::UpgradeBought => "res/audio/611800__metalfortress__confirm.wav",
            AudioEvent::UpgradeDenied => "res/audio/220187__gameaudio__loosedeny-casual-1.wav",
            AudioEvent::DoughCreated => {
                "res/audio/330997__rudmer_rotteveel__stick-hitting-a-dreadlock-small-thud.wav"
            },
        }
    }
}

/// The queue of audio events raised during a frame.
#[derive(Debug)]
pub struct AudioEventChannel(Vec<AudioEvent>);

impl View for AudioEventChannel {
    type V = Seq<AudioEvent>;

    closed spec fn view(&self) -> Seq<AudioEvent> {
        self.0@
    }
}

impl AudioEventChannel {
    pub fn new() -> (r: AudioEventChannel)
        ensures
            r@ == Seq::<AudioEvent>::empty(),
    {
        AudioEventChannel(Vec::new())
    }

    pub fn push(&mut self, event: AudioEvent)
        requires
            old(self)@.len() < usize::MAX,
        ensures
            final(self)@ == old(self)@.push(event),
    {
        self.0.push(event);
    }

    /// Hand every queued event to the caller, emptying the channel.
    pub fn take_events(&mut self) -> (r: Vec<AudioEvent>)
        ensures
            r@ == old(self)@,
            final(self)@ == Seq::<AudioEvent>::empty(),
    {
        let mut drained: Vec<AudioEvent> = Vec::new();
        core::mem::swap(&mut drained, &mut self.0);
        drained
    }

    pub fn len(&self) -> (r: usize)
        ensures
            r == self@.len(),
    {
        self.0.len()
    }
}

} // verus!
