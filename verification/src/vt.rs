//! The byte-level side of the terminal protocol: `vte` splits the stream into
//! actions, which are recorded here as [`Event`] values.

use vstd::prelude::*;
use vstd::slice::slice_to_vec;

verus! {

/// State of the `vte` parser.
#[verifier::external_type_specification]
#[verifier::external_body]
pub struct ExParser<const OSC_RAW_BUF_SIZE: usize>(vte::Parser<OSC_RAW_BUF_SIZE>);

/// Parameters of a control sequence, as `vte` hands them out.
#[verifier::external_type_specification]
#[verifier::external_body]
pub struct ExParams(vte::Params);

/// An action of the parser that a terminal acts on.
pub enum Event {
    /// Draw a character.
    Print(char),
    /// A control character.
    Execute(u8),
    /// A control sequence: its parameters, each with its subparameters, its
    /// intermediate bytes and its final character.
    Csi { params: Vec<Vec<u16>>, intermediates: Vec<u8>, action: char },
    /// An escape sequence: its intermediate bytes and its final byte.
    Esc { intermediates: Vec<u8>, byte: u8 },
    /// An operating system command, by its fields.
    Osc(Vec<Vec<u8>>),
}

/// What an [`Event`] holds.
pub enum EventView {
    Print(char),
    Execute(u8),
    Csi { params: Seq<Seq<u16>>, intermediates: Seq<u8>, action: char },
    Esc { intermediates: Seq<u8>, byte: u8 },
    Osc(Seq<Seq<u8>>),
}

impl View for Event {
    type V = EventView;

    open spec fn view(&self) -> EventView {
        match *self {
            Event::Print(c) => EventView::Print(c),
            Event::Execute(b) => EventView::Execute(b),
            Event::Csi { params, intermediates, action } => EventView::Csi {
                params: param_views(params@),
                intermediates: intermediates@,
                action,
            },
            Event::Esc { intermediates, byte } => EventView::Esc {
                intermediates: intermediates@,
                byte,
            },
            Event::Osc(fields) => EventView::Osc(field_views(fields@)),
        }
    }
}

pub open spec fn param_views(s: Seq<Vec<u16>>) -> Seq<Seq<u16>> {
    s.map_values(|v: Vec<u16>| v@)
}

pub open spec fn field_views(s: Seq<Vec<u8>>) -> Seq<Seq<u8>> {
    s.map_values(|v: Vec<u8>| v@)
}

pub open spec fn event_views(s: Seq<Event>) -> Seq<EventView> {
    s.map_values(|e: Event| e@)
}

/// What `vte::Parser::advance` does on one byte: the state it leaves the parser
/// in, and the actions it performs on the way.
pub uninterp spec fn vte_step(parser: vte::Parser, byte: u8) -> (vte::Parser, Seq<EventView>);

/// Whether the parser is between sequences: neither inside an escape, control or
/// string sequence nor inside a multi-byte character.
pub uninterp spec fn vte_ground(parser: vte::Parser) -> bool;

/// The parameters that a `vte::Params` holds, each with its subparameters.
pub uninterp spec fn vte_params(params: vte::Params) -> Seq<Seq<u16>>;

/// Collects the actions of the parser.
pub struct Recorder {
    pub events: Vec<Event>,
}

impl vte::Perform for Recorder {
    fn print(&mut self, c: char)
        ensures
            final(self).events@ == old(self).events@.push(Event::Print(c)),
    {
        self.events.push(Event::Print(c));
    }

    fn execute(&mut self, byte: u8)
        ensures
            final(self).events@ == old(self).events@.push(Event::Execute(byte)),
    {
        self.events.push(Event::Execute(byte));
    }

    fn csi_dispatch(
        &mut self,
        params: &vte::Params,
        intermediates: &[u8],
        _ignore: bool,
        action: char,
    )
        ensures
            event_views(final(self).events@) == event_views(old(self).events@).push(
                EventView::Csi {
                    params: vte_params(*params),
                    intermediates: intermediates@,
                    action,
                },
            ),
    {
        let params: Vec<Vec<u16>> = param_lists(params);
        let intermediates: Vec<u8> = slice_to_vec(intermediates);
        self.events.push(Event::Csi { params, intermediates, action });
        proof {
            assert(event_views(self.events@) =~= event_views(old(self).events@).push(
                self.events@.last()@,
            ));
        }
    }

    fn esc_dispatch(&mut self, intermediates: &[u8], _ignore: bool, byte: u8)
        ensures
            event_views(final(self).events@) == event_views(old(self).events@).push(
                EventView::Esc { intermediates: intermediates@, byte },
            ),
    {
        let intermediates: Vec<u8> = slice_to_vec(intermediates);
        self.events.push(Event::Esc { intermediates, byte });
        proof {
            assert(event_views(self.events@) =~= event_views(old(self).events@).push(
                self.events@.last()@,
            ));
        }
    }

    fn osc_dispatch(&mut self, params: &[&[u8]], _bell_terminated: bool)
        ensures
            event_views(final(self).events@) == event_views(old(self).events@).push(
                EventView::Osc(params@.map_values(|f: &[u8]| f@)),
            ),
    {
        let mut fields: Vec<Vec<u8>> = Vec::new();
        let mut i: usize = 0;
        while i < params.len()
            invariant
                i <= params@.len(),
                fields@.len() == i,
                forall|j: int| 0 <= j < i ==> (#[trigger] fields@[j])@ == params@[j]@,
            decreases params@.len() - i,
        {
            fields.push(slice_to_vec(params[i]));
            i = i + 1;
        }
        proof {
            assert(field_views(fields@) =~= params@.map_values(|f: &[u8]| f@));
        }
        self.events.push(Event::Osc(fields));
        proof {
            assert(event_views(self.events@) =~= event_views(old(self).events@).push(
                self.events@.last()@,
            ));
        }
    }
}

/// `vte::Params::iter`: the parameters in order, each as the slice of its value
/// and subparameters, copied out.
#[verifier::external_body]
fn param_lists(params: &vte::Params) -> (lists: Vec<Vec<u16>>)
    ensures
        param_views(lists@) == vte_params(*params),
{
    let mut lists = Vec::new();
    for param in params.iter() {
        lists.push(param.to_vec());
    }
    lists
}

/// `vte::Parser::new`: a parser between sequences.
#[verifier::external_body]
pub(crate) fn new_parser() -> (parser: vte::Parser)
    ensures
        vte_ground(parser),
{
    vte::Parser::new()
}

/// `vte::Parser::advance`: feed one byte and collect the actions that it triggers.
/// State and actions are a function of the state before and the byte. Between
/// sequences, a byte of 0x20 to 0x7f is printed and a control byte other than ESC
/// is executed, and the parser stays between sequences.
#[verifier::external_body]
pub(crate) fn advance(parser: &mut vte::Parser, byte: u8) -> (events: Vec<Event>)
    ensures
        (*final(parser), event_views(events@)) == vte_step(*old(parser), byte),
        vte_ground(*old(parser)) && 0x20 <= byte <= 0x7f ==> {
            &&& vte_ground(*final(parser))
            &&& event_views(events@) == seq![EventView::Print(byte as char)]
        },
        vte_ground(*old(parser)) && byte < 0x20 && byte != 0x1b ==> {
            &&& vte_ground(*final(parser))
            &&& event_views(events@) == seq![EventView::Execute(byte)]
        },
{
    let mut recorder = Recorder { events: Vec::new() };
    parser.advance(&mut recorder, byte);
    recorder.events
}

} // verus!
