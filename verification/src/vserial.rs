//! The virtual serial provider: a placeholder console that has no write
//! direction and whose output repeats one greeting for ever.

use crate::error::{ConsoleError, RegistryError};
use crate::properties::{Properties, PropertiesView};
use crate::registry::Registry;
use bytes::Bytes;
use vstd::prelude::*;
use vstd::string::*;

verus! {

/// The provider kind under which virtual serial consoles are registered.
pub const PROVIDER: &'static str = "vserial";

/// The chunk that every read of a virtual serial console yields.
pub const GREETING: &'static str = "Hello, world! ";

/// `bytes::Bytes`, a chunk of bytes.
#[verifier::external_type_specification]
#[verifier::external_body]
pub struct ExBytes(Bytes);

/// The bytes that a `Bytes` chunk holds, first to last.
pub uninterp spec fn bytes_contents(chunk: Bytes) -> Seq<u8>;

/// `Bytes::from` on a static string: the chunk holds the string's UTF-8
/// bytes, without copying them.
#[verifier::external_body]
fn static_chunk(text: &'static str) -> (chunk: Bytes)
    ensures
        bytes_contents(chunk) == text.spec_bytes(),
{
    Bytes::from(text)
}

/// The decoded configuration document of a virtual serial console.
pub struct Config {
    pub rate: u32,
}

/// A virtual serial console.
#[derive(Debug)]
pub struct VSerial {}

/// The host-to-device direction of a virtual serial console. The placeholder
/// has none, so `input` never hands one out.
#[derive(Debug)]
pub struct VSerialInput {}

/// The device-to-host stream of a virtual serial console.
#[derive(Debug)]
pub struct VSerialOutput {}

impl VSerial {
    /// The console at `path`. The placeholder has no device behind it, so
    /// every console is the same console.
    pub fn new(path: String) -> (console: VSerial)
        ensures
            console == (VSerial {  }),
    {
        VSerial {  }
    }

    /// Opens the console; there is nothing to open, so this succeeds.
    pub fn open(&self) -> (r: Result<(), ConsoleError>)
        ensures
            r == Ok::<(), ConsoleError>(()),
    {
        Ok(())
    }

    /// Applies a configuration. `None` stands for a document that could not
    /// be decoded and is refused as invalid; every decoded configuration is
    /// accepted, whatever its rate.
    pub fn configure(&self, parameters: Option<Config>) -> (r: Result<(), ConsoleError>)
        ensures
            r == match parameters {
                Some(_) => Ok::<(), ConsoleError>(()),
                None => Err::<(), ConsoleError>(ConsoleError::InvalidParameters),
            },
    {
        match parameters {
            Some(_) => Ok(()),
            None => Err(ConsoleError::InvalidParameters),
        }
    }

    /// The write direction: the placeholder has none, so it is always closed.
    pub fn input(&self) -> (r: Result<VSerialInput, ConsoleError>)
        ensures
            r == Err::<VSerialInput, ConsoleError>(ConsoleError::Closed),
    {
        Err(ConsoleError::Closed)
    }

    /// A fresh output stream. A stream holds nothing of the console, so
    /// this succeeds however many streams are open or were dropped before.
    pub fn output(&self) -> (r: Result<VSerialOutput, ConsoleError>)
        ensures
            r == Ok::<VSerialOutput, ConsoleError>(VSerialOutput {  }),
    {
        Ok(VSerialOutput::new())
    }
}

impl VSerialOutput {
    /// A stream at its beginning.
    pub fn new() -> (stream: VSerialOutput)
        ensures
            stream == (VSerialOutput {  }),
    {
        VSerialOutput {  }
    }

    /// The next chunk, which is always ready and always the greeting; the
    /// stream never ends and never fails.
    pub fn poll_next(&mut self) -> (item: Option<Result<Bytes, ConsoleError>>)
        ensures
            item matches Some(Ok(chunk)) && bytes_contents(chunk) == GREETING.spec_bytes(),
            *final(self) == *old(self),
    {
        Some(Ok(static_chunk(GREETING)))
    }

    /// Bounds on the number of chunks still to come: none is promised and
    /// there is no upper bound.
    pub fn size_hint(&self) -> (hint: (usize, Option<usize>))
        ensures
            hint == (0usize, None::<usize>),
    {
        (0, None)
    }
}

/// The greeting is fourteen ASCII bytes.
pub proof fn lemma_greeting_bytes()
    ensures
        GREETING.spec_bytes() == seq![
            72u8, 101u8, 108u8, 108u8, 111u8, 44u8, 32u8, 119u8, 111u8, 114u8, 108u8, 100u8, 33u8,
            32u8,
        ],
{
    reveal_strlit("Hello, world! ");
    assert(is_ascii(GREETING));
    is_ascii_spec_bytes(GREETING);
    assert(GREETING.spec_bytes() =~= seq![
        72u8, 101u8, 108u8, 108u8, 111u8, 44u8, 32u8, 119u8, 111u8, 114u8, 108u8, 100u8, 33u8,
        32u8,
    ]);
}

/// Registers one virtual serial console under `name`, with no attributes.
/// A name that is taken is refused as a conflict and nothing changes.
pub fn start_provider(name: String, registry: &mut Registry<VSerial>) -> (r: Result<
    u64,
    RegistryError,
>)
    requires
        old(registry)@.wf(),
    ensures
        final(registry)@.wf(),
        r == old(registry)@.outcome(PropertiesView::named(name@)),
        final(registry)@ == old(registry)@.register(PropertiesView::named(name@), VSerial {  }),
{
    let console = VSerial::new(name.clone());
    let properties = Properties::new(name);
    registry.register(properties, console)
}

} // verus!
