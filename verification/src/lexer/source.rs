//! Where the lexer reads from: the byte source, and the source over a string.

use vstd::prelude::*;
use vstd::string::StringSliceAdditionalSpecFns;

verus! {

/// A stream of bytes that is read one byte at a time, with one byte of
/// lookahead.
///
/// A source is modelled by two things: the bytes that it hands out before
/// its stream ends or a read of it fails, and the error of that failed read,
/// if that is how the stream ends. The contracts of `peek` and `next` say
/// what each result tells of the model. A byte is the first of those still
/// to come; the end and an error are met only once none is left, the end
/// where the stream ends and the error where it fails. So a look ahead
/// tells what the read after it gives.
///
/// Nothing is said of a source after a `next` that has failed.
///
/// The three spec functions have bodies so that a source can be written
/// outside verified code, where they cannot be stated. Of the model of such
/// a source nothing is known but what `peek` and `next` reveal, and it is
/// its author who vouches that they keep their contracts.
pub trait ByteSource: core::fmt::Debug {
    type Error;

    /// The bytes that the source has yet to hand out before its stream ends
    /// or a read fails, the next one first.
    open spec fn remaining(&self) -> Seq<u8> {
        arbitrary::<spec_fn(&Self) -> Seq<u8>>()(self)
    }

    /// The error that a read meets once no byte is left; `None` where the
    /// stream ends there.
    open spec fn failure(&self) -> Option<Self::Error> {
        arbitrary::<spec_fn(&Self) -> Option<Self::Error>>()(self)
    }

    /// The text that `report_error` gives for `e`.
    open spec fn diagnostic(e: Self::Error) -> Seq<char> {
        arbitrary::<spec_fn(Self::Error) -> Seq<char>>()(e)
    }

    /// Looks at the next byte and leaves it in the source. `None` is the end
    /// of the stream. The source is after the call what it was before it.
    fn peek(&mut self) -> (r: Result<Option<u8>, &Self::Error>)
        ensures
            final(self).remaining() == old(self).remaining(),
            final(self).failure() == old(self).failure(),
            match r {
                Ok(Some(b)) => {
                    &&& old(self).remaining().len() > 0
                    &&& b == old(self).remaining()[0]
                },
                Ok(None) => {
                    &&& old(self).remaining().len() == 0
                    &&& old(self).failure() is None
                },
                Err(e) => {
                    &&& old(self).remaining().len() == 0
                    &&& old(self).failure() == Some(*e)
                },
            },
    ;

    /// Takes the next byte out of the source. `None` is the end of the
    /// stream, and the stream stays at its end.
    fn next(&mut self) -> (r: Result<Option<u8>, Self::Error>)
        ensures
            match r {
                Ok(Some(b)) => {
                    &&& old(self).remaining().len() > 0
                    &&& b == old(self).remaining()[0]
                    &&& final(self).remaining() == old(self).remaining().skip(1)
                    &&& final(self).failure() == old(self).failure()
                },
                Ok(None) => {
                    &&& old(self).remaining().len() == 0
                    &&& old(self).failure() is None
                    &&& final(self).remaining().len() == 0
                    &&& final(self).failure() is None
                },
                Err(e) => {
                    &&& old(self).remaining().len() == 0
                    &&& old(self).failure() == Some(e)
                },
            },
    ;

    /// Renders an error of the source as text for a diagnostic.
    fn report_error(e: &Self::Error) -> (text: String)
        ensures
            text@ == Self::diagnostic(*e),
    ;
}

/// What a source reports when the slot of its lookahead holds `item`: the
/// byte, the end of the stream, or the error that the read ran into.
pub fn peeked<E>(item: Option<&Result<u8, E>>) -> (r: Result<Option<u8>, &E>)
    ensures
        match item {
            None => r == Ok::<Option<u8>, &E>(None),
            Some(Ok(b)) => r == Ok::<Option<u8>, &E>(Some(*b)),
            Some(Err(e)) => r == Err::<Option<u8>, &E>(e),
        },
{
    match item {
        None => Ok(None),
        Some(Ok(b)) => Ok(Some(*b)),
        Some(Err(e)) => Err(e),
    }
}

/// A source over the bytes of a string held in memory. No read of it fails.
#[derive(Debug)]
pub struct StrSource<'a> {
    bytes: &'a [u8],
    at: usize,
}

impl<'a> StrSource<'a> {
    /// The bytes of the string that have not been read yet.
    pub closed spec fn unread(&self) -> Seq<u8> {
        self.bytes@.skip(self.at as int)
    }

    #[verifier::type_invariant]
    spec fn within(&self) -> bool {
        self.at <= self.bytes@.len()
    }

    /// A source that hands out the UTF-8 bytes of `src` in order.
    pub fn new(src: &'a str) -> (source: Self)
        ensures
            source.remaining() == src.spec_bytes(),
            source.remaining().len() <= usize::MAX,
            source.failure() is None,
    {
        let bytes = src.as_bytes();
        assert(bytes@.len() == bytes.len());
        assert(bytes@.skip(0) =~= bytes@);
        StrSource { bytes, at: 0 }
    }
}

impl<'a> ByteSource for StrSource<'a> {
    type Error = ();

    open spec fn remaining(&self) -> Seq<u8> {
        self.unread()
    }

    open spec fn failure(&self) -> Option<()> {
        None
    }

    open spec fn diagnostic(e: ()) -> Seq<char> {
        Seq::empty()
    }

    fn peek(&mut self) -> (r: Result<Option<u8>, &()>) {
        proof {
            use_type_invariant(&*self);
        }
        if self.at < self.bytes.len() {
            Ok(Some(self.bytes[self.at]))
        } else {
            Ok(None)
        }
    }

    fn next(&mut self) -> (r: Result<Option<u8>, ()>) {
        proof {
            use_type_invariant(&*self);
        }
        if self.at < self.bytes.len() {
            let b = self.bytes[self.at];
            self.at = self.at + 1;
            Ok(Some(b))
        } else {
            Ok(None)
        }
    }

    /// The empty text: there is no error to render.
    fn report_error(_e: &()) -> (text: String) {
        String::new()
    }
}

} // verus!
