//! Capabilities a client announces to the server when it connects.
//!
//! `Capability` is one announced item and `CapList` the comma-separated list
//! that goes into the HELO frame.

use vstd::prelude::*;
use crate::text::{decimal, decimal_string};

verus! {

/// A client capability as recognized by the server.
#[derive(Clone, Debug)]
pub enum Capability {
    Wma,
    Wmap,
    Wmal,
    Ogg,
    Flc,
    Pcm,
    Aif,
    Mp3,
    Alc,
    Aac,
    Maxsamplerate(u32),
    Model(String),
    Modelname(String),
    Rhap,
    Accurateplaypoints,
    Syncgroupid(String),
    Hasdigitalout,
    Haspreamp,
    Hasdisabledac,
    Firmware(String),
    Balance,
    CanHTTPS,
}

/// The protocol token of a capability.
pub open spec fn cap_text(c: Capability) -> Seq<char> {
    match c {
        Capability::Wma => "wma"@,
        Capability::Wmap => "wmap"@,
        Capability::Wmal => "wmal"@,
        Capability::Ogg => "ogg"@,
        Capability::Flc => "flc"@,
        Capability::Pcm => "pcm"@,
        Capability::Aif => "aif"@,
        Capability::Mp3 => "mp3"@,
        Capability::Alc => "alc"@,
        Capability::Aac => "aac"@,
        Capability::Maxsamplerate(v) => "MaxSampleRate="@ + decimal(v as nat),
        Capability::Model(v) => "Model="@ + v@,
        Capability::Modelname(v) => "Modelname="@ + v@,
        Capability::Rhap => "Rhap"@,
        Capability::Accurateplaypoints => "AccuratePlayPoints=1"@,
        Capability::Syncgroupid(v) => "SyncgroupID="@ + v@,
        Capability::Hasdigitalout => "HasDigitalOut=1"@,
        Capability::Haspreamp => "HasPreAmp=1"@,
        Capability::Hasdisabledac => "HasDisableDac=1"@,
        Capability::Firmware(v) => "Firmware="@ + v@,
        Capability::Balance => "Balance=1"@,
        Capability::CanHTTPS => "canHTTPS=1"@,
    }
}

/// The tokens of `caps`, in order, separated by commas.
pub open spec fn join_caps(caps: Seq<Capability>) -> Seq<char>
    decreases caps.len(),
{
    if caps.len() == 0 {
        seq![]
    } else if caps.len() == 1 {
        cap_text(caps[0])
    } else {
        join_caps(caps.drop_last()) + seq![','] + cap_text(caps.last())
    }
}

fn prefixed(prefix: &str, value: &str) -> (r: String)
    ensures
        r@ == prefix@ + value@,
{
    let mut s = String::from_str(prefix);
    s.append(value);
    s
}

impl Capability {
    /// The protocol token sent to the server for this capability.
    pub fn to_string(&self) -> (r: String)
        ensures
            r@ == cap_text(*self),
    {
        match self {
            Capability::Wma => String::from_str("wma"),
            Capability::Wmap => String::from_str("wmap"),
            Capability::Wmal => String::from_str("wmal"),
            Capability::Ogg => String::from_str("ogg"),
            Capability::Flc => String::from_str("flc"),
            Capability::Pcm => String::from_str("pcm"),
            Capability::Aif => String::from_str("aif"),
            Capability::Mp3 => String::from_str("mp3"),
            Capability::Alc => String::from_str("alc"),
            Capability::Aac => String::from_str("aac"),
            Capability::Maxsamplerate(v) => {
                let digits = decimal_string(*v);
                prefixed("MaxSampleRate=", digits.as_str())
            },
            Capability::Model(v) => prefixed("Model=", v.as_str()),
            Capability::Modelname(v) => prefixed("Modelname=", v.as_str()),
            Capability::Rhap => String::from_str("Rhap"),
            Capability::Accurateplaypoints => String::from_str("AccuratePlayPoints=1"),
            Capability::Syncgroupid(v) => prefixed("SyncgroupID=", v.as_str()),
            Capability::Hasdigitalout => String::from_str("HasDigitalOut=1"),
            Capability::Haspreamp => String::from_str("HasPreAmp=1"),
            Capability::Hasdisabledac => String::from_str("HasDisableDac=1"),
            Capability::Firmware(v) => prefixed("Firmware=", v.as_str()),
            Capability::Balance => String::from_str("Balance=1"),
            Capability::CanHTTPS => String::from_str("canHTTPS=1"),
        }
    }
}

/// A list of capabilities sent to the server when the client announces itself.
#[derive(Clone, Debug)]
pub struct CapList(Vec<Capability>);

impl View for CapList {
    type V = Seq<Capability>;

    closed spec fn view(&self) -> Seq<Capability> {
        self.0@
    }
}

impl CapList {
    /// The list of `caps`, in the order given.
    pub fn new(caps: Vec<Capability>) -> (r: Self)
        ensures
            r@ == caps@,
    {
        Self(caps)
    }

    /// The empty list.
    pub fn empty() -> (r: Self)
        ensures
            r@ == Seq::<Capability>::empty(),
    {
        Self(Vec::new())
    }

    /// The comma-separated capability string of the HELO frame.
    pub fn to_string(&self) -> (r: String)
        ensures
            r@ == join_caps(self@),
    {
        let caps = &self.0;
        let mut s = String::new();
        let mut i: usize = 0;
        while i < caps.len()
            invariant
                i <= caps@.len(),
                s@ == join_caps(caps@.take(i as int)),
            decreases caps@.len() - i,
        {
            let token = caps[i].to_string();
            if i > 0 {
                s.append(",");
            }
            s.append(token.as_str());
            i = i + 1;
            proof {
                let t = caps@.take(i as int);
                assert(t.drop_last() =~= caps@.take(i - 1));
                reveal_strlit(",");
                if i == 1 {
                    assert(caps@.take(0) =~= Seq::<Capability>::empty());
                }
            }
        }
        assert(caps@.take(i as int) =~= caps@);
        s
    }
}


/// The text of a list is the texts of its two halves joined by a comma,
/// with no comma at either end; the empty list has the empty text.
pub proof fn lemma_join_concat(a: Seq<Capability>, b: Seq<Capability>)
    requires
        a.len() > 0,
        b.len() > 0,
    ensures
        join_caps(a + b) == join_caps(a) + seq![','] + join_caps(b),
        join_caps(Seq::<Capability>::empty()) == Seq::<char>::empty(),
    decreases b.len(),
{
    if b.len() == 1 {
        assert((a + b).drop_last() =~= a);
        assert((a + b).last() == b[0]);
    } else {
        lemma_join_concat(a, b.drop_last());
        assert((a + b).drop_last() =~= a + b.drop_last());
        assert((a + b).last() == b.last());
        assert(join_caps(a) + seq![','] + join_caps(b.drop_last()) + seq![','] + cap_text(b.last())
            =~= join_caps(a) + seq![','] + (join_caps(b.drop_last()) + seq![','] + cap_text(
            b.last(),
        )));
    }
}

/// The protocol tokens of the capabilities: the codec names in lower case,
/// `Name=value` pairs for the valued ones (the sample rate in decimal), and
/// `Name=1` for the flags.
pub proof fn lemma_capability_tokens(c: Capability)
    ensures
        cap_text(c) == match c {
            Capability::Wma => "wma"@,
            Capability::Wmap => "wmap"@,
            Capability::Wmal => "wmal"@,
            Capability::Ogg => "ogg"@,
            Capability::Flc => "flc"@,
            Capability::Pcm => "pcm"@,
            Capability::Aif => "aif"@,
            Capability::Mp3 => "mp3"@,
            Capability::Alc => "alc"@,
            Capability::Aac => "aac"@,
            Capability::Maxsamplerate(v) => "MaxSampleRate="@ + decimal(v as nat),
            Capability::Model(v) => "Model="@ + v@,
            Capability::Modelname(v) => "Modelname="@ + v@,
            Capability::Rhap => "Rhap"@,
            Capability::Accurateplaypoints => "AccuratePlayPoints=1"@,
            Capability::Syncgroupid(v) => "SyncgroupID="@ + v@,
            Capability::Hasdigitalout => "HasDigitalOut=1"@,
            Capability::Haspreamp => "HasPreAmp=1"@,
            Capability::Hasdisabledac => "HasDisableDac=1"@,
            Capability::Firmware(v) => "Firmware="@ + v@,
            Capability::Balance => "Balance=1"@,
            Capability::CanHTTPS => "canHTTPS=1"@,
        },
{
}

} // verus!
