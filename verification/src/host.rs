//! A window host: one process per application that carries out the compositor's
//! commands and sends input back.

use crate::cmd::WinCmd;
use crate::input::{at_least, set_output_size, set_reserved_insets, set_scale, Display};
use crate::ipc::Downlink;
use vstd::prelude::*;

verus! {

/// What a host learns from its first message.
#[derive(Debug, PartialEq, Eq)]
pub struct Greeting {
    /// The host shows up in the Dock.
    pub regular: bool,
    /// Under this name.
    pub name: String,
}

/// The display has these parameters, as far as they are allowed.
pub open spec fn display_set(
    d: Display,
    scale: i32,
    out: (i32, i32),
    insets: (i32, i32, i32, i32),
) -> bool {
    &&& d.spec_scale() == at_least(scale, 1)
    &&& d.spec_output_size().0 == at_least(out.0, 1)
    &&& d.spec_output_size().1 == at_least(out.1, 1)
    &&& insets_set(d, insets)
}

/// The display has these insets, as far as they are allowed.
pub open spec fn insets_set(d: Display, insets: (i32, i32, i32, i32)) -> bool {
    &&& d.spec_insets().0 == at_least(insets.0, 0)
    &&& d.spec_insets().1 == at_least(insets.1, 0)
    &&& d.spec_insets().2 == at_least(insets.2, 0)
    &&& d.spec_insets().3 == at_least(insets.3, 0)
}

/// What a first message greets with; only a greeting does.
pub open spec fn greeting_of(first: Downlink) -> Option<Greeting> {
    match first {
        Downlink::Hello { regular, name, .. } => Some(Greeting { regular, name }),
        _ => None,
    }
}

/// Takes the first message in. It has to be the greeting, which sets the display up;
/// with any other the host cannot start.
pub fn greet(first: Downlink, display: &mut Display) -> (r: Option<Greeting>)
    ensures
        r == greeting_of(first),
        first matches Downlink::Hello { scale, out_w, out_h, insets, regular, name } ==> r->0
            == (Greeting { regular, name }) && display_set(
            *final(display),
            scale,
            (out_w, out_h),
            insets,
        ),
        !(first is Hello) ==> *final(display) == *old(display),
{
    match first {
        Downlink::Hello { scale, out_w, out_h, insets, regular, name } => {
            set_scale(display, scale);
            set_output_size(display, out_w, out_h);
            set_reserved_insets(display, insets.0, insets.1, insets.2, insets.3);
            Some(Greeting { regular, name })
        },
        _ => None,
    }
}

/// What reading the next message gave.
#[derive(Debug)]
pub enum Received {
    Message { msg: Downlink },
    /// The compositor closed the socket.
    Closed,
    /// The message could not be read.
    Failed,
}

/// What the host does about it.
#[derive(Debug, PartialEq, Eq)]
pub enum HostStep {
    /// Carry a command out.
    Carry { cmd: WinCmd },
    /// Read on.
    Continue,
    /// End.
    Exit,
}

/// What a host does about a later message.
pub open spec fn next_step(received: Received) -> HostStep {
    match received {
        Received::Message { msg } => match msg {
            Downlink::Cmd { cmd } => HostStep::Carry { cmd },
            Downlink::Insets { .. } => HostStep::Continue,
            Downlink::Hello { .. } => HostStep::Continue,
            Downlink::Shutdown => HostStep::Exit,
        },
        Received::Closed => HostStep::Exit,
        Received::Failed => HostStep::Exit,
    }
}

/// Takes a later message in: commands are carried out, insets are recorded, a second
/// greeting is ignored, and the host ends with the compositor's word, with the socket,
/// and with anything that it cannot read.
pub fn host_step(received: Received, display: &mut Display) -> (r: HostStep)
    ensures
        r == next_step(received),
        match received {
            Received::Message { msg } => match msg {
                Downlink::Cmd { cmd } => r == (HostStep::Carry { cmd }) && *final(display) == *old(
                    display,
                ),
                Downlink::Insets { top, right, bottom, left } => r == HostStep::Continue
                    && insets_set(*final(display), (top, right, bottom, left))
                    && final(display).spec_scale() == old(display).spec_scale()
                    && final(display).spec_output_size() == old(display).spec_output_size(),
                Downlink::Hello { .. } => r == HostStep::Continue && *final(display) == *old(
                    display,
                ),
                Downlink::Shutdown => r == HostStep::Exit && *final(display) == *old(display),
            },
            Received::Closed => r == HostStep::Exit && *final(display) == *old(display),
            Received::Failed => r == HostStep::Exit && *final(display) == *old(display),
        },
{
    match received {
        Received::Message { msg } => match msg {
            Downlink::Cmd { cmd } => HostStep::Carry { cmd },
            Downlink::Insets { top, right, bottom, left } => {
                set_reserved_insets(display, top, right, bottom, left);
                HostStep::Continue
            },
            Downlink::Hello { .. } => HostStep::Continue,
            Downlink::Shutdown => HostStep::Exit,
        },
        Received::Closed => HostStep::Exit,
        Received::Failed => HostStep::Exit,
    }
}

/// What reading the wakeup pipe gave.
#[derive(Clone, Copy, PartialEq, Eq, Debug, Structural)]
pub enum WakeRead {
    Bytes { n: usize },
    Interrupted,
    Failed,
}

/// What the forwarder of input does about it.
#[derive(Clone, Copy, PartialEq, Eq, Debug, Structural)]
pub enum ForwardStep {
    /// Send all queued events up.
    Flush,
    /// Wait again.
    Retry,
    /// End: the pipe is closed or broken.
    Stop,
}

/// What a wakeup means.
pub open spec fn meaning(read: WakeRead) -> ForwardStep {
    match read {
        WakeRead::Bytes { n } => if n == 0 {
            ForwardStep::Stop
        } else {
            ForwardStep::Flush
        },
        WakeRead::Interrupted => ForwardStep::Retry,
        WakeRead::Failed => ForwardStep::Stop,
    }
}

/// Decides what a wakeup means.
pub fn forward_step(read: WakeRead) -> (r: ForwardStep)
    ensures
        r == meaning(read),
{
    match read {
        WakeRead::Bytes { n } => if n == 0 {
            ForwardStep::Stop
        } else {
            ForwardStep::Flush
        },
        WakeRead::Interrupted => ForwardStep::Retry,
        WakeRead::Failed => ForwardStep::Stop,
    }
}

/// A host carries out the commands that it is sent, as they were sent, and nothing else;
/// it ends when it is told to, when the compositor is gone, and when it cannot read on.
pub proof fn lemma_host_carries_out_commands(received: Received, sent: WinCmd)
    ensures
        next_step(received) == (HostStep::Carry { cmd: sent }) <==> received == (Received::Message {
            msg: Downlink::Cmd { cmd: sent },
        }),
        next_step(received) == HostStep::Exit <==> received is Closed || received is Failed
            || received == (Received::Message { msg: Downlink::Shutdown }),
{
}

/// Input goes up whenever anything woke the host, and stops only with its pipe.
pub proof fn lemma_host_forwards_what_wakes_it(n: usize)
    ensures
        meaning(WakeRead::Bytes { n }) == ForwardStep::Flush <==> n > 0,
        meaning(WakeRead::Bytes { n }) == ForwardStep::Stop <==> n == 0,
        meaning(WakeRead::Interrupted) == ForwardStep::Retry,
        meaning(WakeRead::Failed) == ForwardStep::Stop,
{
}

/// A display that was told of allowed parameters has just these, each in its place.
pub proof fn lemma_display_takes_what_it_is_told(
    d: Display,
    scale: i32,
    out: (i32, i32),
    insets: (i32, i32, i32, i32),
)
    requires
        display_set(d, scale, out, insets),
        scale >= 1,
        out.0 >= 1,
        out.1 >= 1,
        insets.0 >= 0,
        insets.1 >= 0,
        insets.2 >= 0,
        insets.3 >= 0,
    ensures
        d.spec_scale() == scale,
        d.spec_output_size() == out,
        d.spec_insets() == insets,
{
}

/// A host goes by the name that it was greeted with, and shows up in the Dock where it was
/// told to; nothing but a greeting starts it.
pub proof fn lemma_host_is_as_it_was_greeted(first: Downlink)
    ensures
        greeting_of(first) is Some <==> first is Hello,
        first matches Downlink::Hello { regular, name, .. } ==> greeting_of(first)->0.regular
            == regular && greeting_of(first)->0.name == name,
{
}

} // verus!
