use crate::text::{join, joined};
use vstd::prelude::*;
use vstd::string::*;

verus! {

/// `msg` between two fences of three backticks, each on a line of its own.
pub open spec fn boxed(msg: Seq<char>) -> Seq<char> {
    seq!['`', '`', '`', '\n'] + msg + seq!['\n', '`', '`', '`']
}

/// The messages that make up one reply.
pub struct BotReply {
    pub messages: Vec<String>,
}

impl View for BotReply {
    type V = Seq<Seq<char>>;

    open spec fn view(&self) -> Seq<Seq<char>> {
        self.messages.deep_view()
    }
}

impl BotReply {
    /// A reply without a message.
    pub fn new() -> (r: Self)
        ensures
            r@ == Seq::<Seq<char>>::empty(),
    {
        let r = BotReply { messages: Vec::new() };
        assert(r@ =~= Seq::<Seq<char>>::empty());
        r
    }

    /// Adds `msg` as the last message.
    pub fn add(&mut self, msg: String)
        ensures
            final(self)@ == old(self)@.push(msg@),
    {
        self.messages.push(msg);
        assert(self@ =~= old(self)@.push(msg@));
    }

    /// Adds `msg` as the last message, set off as preformatted text.
    pub fn add_boxed(&mut self, msg: String)
        ensures
            final(self)@ == old(self)@.push(boxed(msg@)),
    {
        let mut framed = String::new();
        framed.push('`');
        framed.push('`');
        framed.push('`');
        framed.push('\n');
        framed.append(msg.as_str());
        framed.push('\n');
        framed.push('`');
        framed.push('`');
        framed.push('`');
        assert(framed@ =~= boxed(msg@));
        self.messages.push(framed);
        assert(self@ =~= old(self)@.push(boxed(msg@)));
    }

    /// The messages, one to a line.
    pub fn to_string(&self) -> (r: String)
        ensures
            r@ == joined(self@, seq!['\n']),
    {
        proof {
            reveal_strlit("\n");
            assert("\n"@ =~= seq!['\n']);
        }
        join(&self.messages, "\n")
    }
}

} // verus!
