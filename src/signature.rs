use vstd::prelude::*;

verus! {

/// The calling contract of a remote entry point inside the injected module.
#[derive(Clone, Copy, Debug, PartialEq, Eq, Structural)]
pub enum RemoteProcSignature {
    /// No arguments, no result: a pure trigger.
    Signal,
    /// Input buffer and output buffer, returns the count of bytes written.
    Blob,
    /// A command code followed by a blob-shaped payload.
    Multiplex,
    /// Takes the foreign address of a zero-terminated string and returns the
    /// foreign address of a newly allocated zero-terminated string.
    Text,
}

impl RemoteProcSignature {
    /// The tag that names this calling contract in a configuration file.
    pub open spec fn tag_spec(self) -> Seq<char> {
        match self {
            RemoteProcSignature::Signal => "signal"@,
            RemoteProcSignature::Blob => "blob"@,
            RemoteProcSignature::Multiplex => "multiplex"@,
            RemoteProcSignature::Text => "text"@,
        }
    }

    /// The signature whose tag is `tag`, if any.
    pub open spec fn from_tag_spec(tag: Seq<char>) -> Option<RemoteProcSignature> {
        if tag == "signal"@ {
            Some(RemoteProcSignature::Signal)
        } else if tag == "blob"@ {
            Some(RemoteProcSignature::Blob)
        } else if tag == "multiplex"@ {
            Some(RemoteProcSignature::Multiplex)
        } else if tag == "text"@ {
            Some(RemoteProcSignature::Text)
        } else {
            None
        }
    }

    pub fn tag(&self) -> (r: &'static str)
        ensures
            r@ == self.tag_spec(),
    {
        match self {
            RemoteProcSignature::Signal => "signal",
            RemoteProcSignature::Blob => "blob",
            RemoteProcSignature::Multiplex => "multiplex",
            RemoteProcSignature::Text => "text",
        }
    }

    /// Reads a configuration tag; unknown tags give `None`.
    pub fn from_tag(tag: &str) -> (r: Option<RemoteProcSignature>)
        ensures
            r == Self::from_tag_spec(tag@),
    {
        let t = tag.to_owned();
        if t == "signal".to_owned() {
            Some(RemoteProcSignature::Signal)
        } else if t == "blob".to_owned() {
            Some(RemoteProcSignature::Blob)
        } else if t == "multiplex".to_owned() {
            Some(RemoteProcSignature::Multiplex)
        } else if t == "text".to_owned() {
            Some(RemoteProcSignature::Text)
        } else {
            None
        }
    }

    /// Every signature's tag reads back as that signature.
    pub proof fn lemma_tag_round_trip(self)
        ensures
            Self::from_tag_spec(self.tag_spec()) == Some(self),
    {
        reveal_strlit("signal");
        reveal_strlit("blob");
        reveal_strlit("multiplex");
        reveal_strlit("text");
        assert("signal"@.len() == 6);
        assert("blob"@.len() == 4 && "blob"@[0] == 'b');
        assert("multiplex"@.len() == 9);
        assert("text"@.len() == 4 && "text"@[0] == 't');
    }
}

} // verus!
