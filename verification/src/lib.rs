//! A template compiler: turns a template, literal text with `{{ .. }}`
//! markers in it, into an ordered program of instructions, and escapes the
//! values that a program emits for the context they are written into.
use vstd::prelude::*;
use vstd::string::StringSliceAdditionalSpecFns;
use crate::escape::{Escape, Html, NoEscape, WriteError};

pub mod codegen;
pub mod compiler;
pub mod escape;
pub mod instruction;
pub mod laws;
pub mod scanner;
pub mod text;
pub mod wellformed;

verus! {

/// A value that renders itself into a sink, escaping what it interpolates.
pub trait Template {
    /// What `render` writes, where `escaped` is what the strategy makes
    /// of a value.
    spec fn rendered(&self, escaped: spec_fn(Seq<u8>) -> Seq<u8>) -> Seq<u8>;

    /// Whether `render` succeeds, where `accepts` says which values the
    /// strategy can write.
    spec fn renders(&self, accepts: spec_fn(Seq<u8>) -> bool) -> bool;

    /// Renders with the strategy `escape`: succeeds exactly where the
    /// template renders with what the strategy accepts, and then appends
    /// what the template writes.
    fn render<E: Escape>(&self, to: &mut Vec<u8>, escape: &E) -> (r: Result<(), WriteError>)
        ensures
            r is Ok <==> self.renders(|v: Seq<u8>| escape.accepts(v)),
            r is Ok ==> final(to)@ == old(to)@ + self.rendered(|v: Seq<u8>| escape.escaped(v)),
    ;

    /// Renders as plain text: nothing is escaped.
    fn render_text(&self, to: &mut Vec<u8>) -> (r: Result<(), WriteError>)
        ensures
            r is Ok <==> self.renders(|v: Seq<u8>| NoEscape.accepts(v)),
            r is Ok ==> final(to)@ == old(to)@ + self.rendered(|v: Seq<u8>| NoEscape.escaped(v)),
    {
        self.render(to, &NoEscape)
    }

    /// Renders as HTML.
    fn render_html(&self, to: &mut Vec<u8>) -> (r: Result<(), WriteError>)
        ensures
            r is Ok <==> self.renders(|v: Seq<u8>| Html.accepts(v)),
            r is Ok ==> final(to)@ == old(to)@ + self.rendered(|v: Seq<u8>| Html.escaped(v)),
    {
        self.render(to, &Html)
    }
}

/// A greeting and the name of whom it greets.
pub struct Greeting<'a> {
    pub name: &'a str,
}

impl<'a> Template for Greeting<'a> {
    open spec fn rendered(&self, escaped: spec_fn(Seq<u8>) -> Seq<u8>) -> Seq<u8> {
        "Hello, ".spec_bytes() + escaped(self.name.spec_bytes())
    }

    /// A greeting renders exactly where the strategy accepts the name.
    open spec fn renders(&self, accepts: spec_fn(Seq<u8>) -> bool) -> bool {
        accepts(self.name.spec_bytes())
    }

    fn render<E: Escape>(&self, to: &mut Vec<u8>, escape: &E) -> (r: Result<(), WriteError>) {
        to.extend_from_slice("Hello, ".as_bytes());
        let written = escape.write(to, self.name);
        proof {
            if written is Ok {
                assert(to@ =~= old(to)@ + ("Hello, ".spec_bytes() + escape.escaped(
                    self.name.spec_bytes(),
                )));
            }
        }
        written
    }
}

/// Greets the world in plain text.
pub fn hello_world(out: &mut Vec<u8>) -> (r: Result<(), WriteError>)
    ensures
        r is Ok,
        final(out)@ == old(out)@ + ("Hello, ".spec_bytes() + "World!".spec_bytes()),
{
    out.extend_from_slice("Hello, ".as_bytes());
    let written = NoEscape.write(out, "World!");
    assert(out@ =~= old(out)@ + ("Hello, ".spec_bytes() + "World!".spec_bytes()));
    written
}

} // verus!
