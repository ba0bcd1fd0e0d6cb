//! The message log: an append-only record of coloured narration tokens.

use vstd::prelude::*;
use vstd::string::StringExecFns;

use std::collections::VecDeque;

use crate::colour::Colour;

verus! {

/// One coloured run of text inside a message.
#[derive(Debug)]
pub struct Token {
    pub content: String,
    pub colour: Colour,
}

/// One logged message: its tokens in display order.
#[derive(Debug)]
pub struct Message {
    pub tokens: Vec<Token>,
}

/// The append-only record of everything narrated so far.
#[derive(Debug)]
pub struct Logger {
    pub messages: VecDeque<Message>,
}

impl Logger {
    pub fn new() -> (l: Logger)
        ensures
            l.messages@.len() == 0,
    {
        Logger { messages: VecDeque::new() }
    }

    /// Starts composing a message. The finished message enters the record
    /// when the builder's `build` hands it back to this logger.
    pub fn message(&self) -> (b: MessageBuilder)
        ensures
            b.tokens@.len() == 0,
    {
        MessageBuilder { tokens: Vec::new() }
    }
}

/// Accumulates the tokens of one message before it is committed to a logger.
#[derive(Debug)]
pub struct MessageBuilder {
    pub tokens: Vec<Token>,
}

impl MessageBuilder {
    /// Appends one coloured token.
    pub fn with(self, content: &str, colour: Colour) -> (r: MessageBuilder)
        ensures
            r.tokens@.len() == self.tokens@.len() + 1,
            r.tokens@.subrange(0, self.tokens@.len() as int) == self.tokens@,
            r.tokens@.last().content@ == content@,
            r.tokens@.last().colour == colour,
    {
        let mut tokens = self.tokens;
        let ghost tokens0 = tokens@;
        tokens.push(Token { content: String::from_str(content), colour });
        proof {
            assert(tokens@.subrange(0, tokens0.len() as int) =~= tokens0);
        }
        MessageBuilder { tokens }
    }

    /// Commits the composed message to the back of the record; nothing
    /// already logged moves.
    pub fn build(self, logger: &mut Logger)
        ensures
            final(logger).messages@.len() == old(logger).messages@.len() + 1,
            final(logger).messages@.subrange(0, old(logger).messages@.len() as int) == old(
                logger,
            ).messages@,
            final(logger).messages@.last().tokens@ == self.tokens@,
    {
        let ghost msgs0 = logger.messages@;
        logger.messages.push_back(Message { tokens: self.tokens });
        proof {
            assert(logger.messages@.subrange(0, msgs0.len() as int) =~= msgs0);
        }
    }
}

/// The palette of the narration log: plain text.
pub fn text_colour() -> (c: Colour)
    ensures
        c == (Colour { r: 128, g: 128, b: 128 }),
{
    Colour::dark_gray()
}

/// The palette of the narration log: entity names.
pub fn name_colour() -> (c: Colour)
    ensures
        c == (Colour { r: 192, g: 192, b: 192 }),
{
    Colour::gray()
}

/// The palette of the narration log: numbers.
pub fn number_colour() -> (c: Colour)
    ensures
        c == (Colour { r: 255, g: 255, b: 255 }),
{
    Colour::white()
}

/// The palette of the narration log: health figures.
pub fn health_colour() -> (c: Colour)
    ensures
        c == (Colour { r: 128, g: 0, b: 0 }),
{
    Colour::dark_red()
}

/// The palette of the narration log: armour figures.
pub fn armour_colour() -> (c: Colour)
    ensures
        c == (Colour { r: 0, g: 128, b: 0 }),
{
    Colour::dark_green()
}

/// The palette of the narration log: shield figures.
pub fn shield_colour() -> (c: Colour)
    ensures
        c == (Colour { r: 0, g: 0, b: 128 }),
{
    Colour::dark_blue()
}

} // verus!
