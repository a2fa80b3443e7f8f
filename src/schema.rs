//! The protocol description, as read from its XML file, and the argument
//! types it gives each request.
use crate::interface::bytes_equal;
use crate::message::ArgType;
use vstd::prelude::*;
use vstd::utf8::encode_utf8;

verus! {

/// A protocol: a name and its interfaces.
#[derive(Debug)]
pub struct Protocol {
    pub name: String,
    pub text: Option<String>,
    pub copyright: String,
    pub interface: Vec<Interface>,
}

/// One interface with its requests, events and enums.
#[derive(Debug)]
pub struct Interface {
    pub name: String,
    pub version: String,
    pub text: Option<String>,
    pub description: InterfaceDescription,
    pub request: Option<Vec<Request>>,
    pub event: Option<Vec<Event>>,
    pub interface_enum: Option<Vec<Enum>>,
}

#[derive(Debug)]
pub struct InterfaceDescription {
    pub summary: String,
    pub text: Option<String>,
}

/// A request, from client to server.
#[derive(Debug)]
pub struct Request {
    pub name: String,
    pub request_type: Option<String>,
    pub since: Option<String>,
    pub text: Option<String>,
    pub description: RequestDescription,
    pub arg: Option<Vec<RequestArg>>,
}

#[derive(Debug)]
pub struct RequestDescription {
    pub summary: String,
    pub text: Option<String>,
}

/// One argument of a request.
#[derive(Debug)]
pub struct RequestArg {
    pub name: String,
    pub arg_type: String,
    pub interface: Option<String>,
    pub summary: String,
    pub arg_enum: Option<String>,
    pub allow_null: Option<bool>,
}

/// An event, from server to client.
#[derive(Debug)]
pub struct Event {
    pub name: String,
    pub event_type: Option<String>,
    pub since: Option<String>,
    pub deprecated_since: Option<String>,
    pub text: Option<String>,
    pub description: EventDescription,
    pub arg: Option<Vec<EventArg>>,
}

#[derive(Debug)]
pub struct EventDescription {
    pub summary: String,
    pub text: Option<String>,
}

/// One argument of an event.
#[derive(Debug)]
pub struct EventArg {
    pub name: String,
    pub arg_type: String,
    pub summary: String,
    pub arg_enum: Option<String>,
    pub allow_null: Option<bool>,
    pub interface: Option<String>,
}

/// A set of named constants.
#[derive(Debug)]
pub struct Enum {
    pub name: String,
    pub since: Option<String>,
    pub bitfield: Option<String>,
    pub text: Option<String>,
    pub description: Option<EnumDescription>,
    pub entry: Vec<Entry>,
}

#[derive(Debug)]
pub struct EnumDescription {
    pub summary: String,
    pub text: Option<String>,
}

/// One named constant.
#[derive(Debug)]
pub struct Entry {
    pub name: String,
    pub value: String,
    pub summary: Option<String>,
    pub since: Option<String>,
}

/// The name a protocol description gives a wire type.
pub open spec fn wire_type_name(t: ArgType) -> Seq<char> {
    match t {
        ArgType::Int => "int"@,
        ArgType::Uint => "uint"@,
        ArgType::Fixed => "fixed"@,
        ArgType::Str => "string"@,
        ArgType::Object => "object"@,
        ArgType::NewId => "new_id"@,
        ArgType::Array => "array"@,
        ArgType::Fd => "fd"@,
    }
}

/// A name that no wire type has.
pub open spec fn unknown_type(name: Seq<char>) -> bool {
    forall|t: ArgType| encode_utf8(#[trigger] wire_type_name(t)) != encode_utf8(name)
}

fn wire_type_str(t: ArgType) -> (r: &'static str)
    ensures
        r@ == wire_type_name(t),
{
    match t {
        ArgType::Int => "int",
        ArgType::Uint => "uint",
        ArgType::Fixed => "fixed",
        ArgType::Str => "string",
        ArgType::Object => "object",
        ArgType::NewId => "new_id",
        ArgType::Array => "array",
        ArgType::Fd => "fd",
    }
}

/// The wire type that a description names; `None` for a name it does not know.
pub fn parse_arg_type(name: &String) -> (r: Option<ArgType>)
    ensures
        match r {
            Some(t) => encode_utf8(wire_type_name(t)) == encode_utf8(name@),
            None => forall|t: ArgType| encode_utf8(#[trigger] wire_type_name(t)) != encode_utf8(name@),
        },
{
    let all = [
        ArgType::Int,
        ArgType::Uint,
        ArgType::Fixed,
        ArgType::Str,
        ArgType::Object,
        ArgType::NewId,
        ArgType::Array,
        ArgType::Fd,
    ];
    let mut k: usize = 0;
    while k < 8
        invariant
            k <= 8,
            all@ == seq![
                ArgType::Int,
                ArgType::Uint,
                ArgType::Fixed,
                ArgType::Str,
                ArgType::Object,
                ArgType::NewId,
                ArgType::Array,
                ArgType::Fd,
            ],
            forall|j: int| 0 <= j < k ==> encode_utf8(wire_type_name(#[trigger] all@[j])) != encode_utf8(name@),
        decreases 8 - k,
    {
        let t = all[k];
        if bytes_equal(wire_type_str(t).as_bytes(), name.as_str().as_bytes()) {
            return Some(t);
        }
        k = k + 1;
    }
    proof {
        assert forall|t: ArgType| encode_utf8(#[trigger] wire_type_name(t)) != encode_utf8(name@) by {
            match t {
                ArgType::Int => assert(all@[0] == t),
                ArgType::Uint => assert(all@[1] == t),
                ArgType::Fixed => assert(all@[2] == t),
                ArgType::Str => assert(all@[3] == t),
                ArgType::Object => assert(all@[4] == t),
                ArgType::NewId => assert(all@[5] == t),
                ArgType::Array => assert(all@[6] == t),
                ArgType::Fd => assert(all@[7] == t),
            }
        }
    }
    None
}

/// The argument types of a request, in order; `None` when an argument has a
/// type the description language does not know.
pub fn request_arg_types(request: &Request) -> (r: Option<Vec<ArgType>>)
    ensures
        request.arg is None ==> r is Some && r->Some_0@.len() == 0,
        request.arg is Some && r is Some ==> ({
            let args = request.arg->Some_0@;
            &&& r->Some_0@.len() == args.len()
            &&& forall|i: int| 0 <= i < args.len() ==> encode_utf8(wire_type_name(#[trigger] r->Some_0@[i])) == encode_utf8(args[i].arg_type@)
        }),
        request.arg is Some && r is None ==> exists|i: int| 0 <= i < request.arg->Some_0@.len()
            && unknown_type(#[trigger] request.arg->Some_0@[i].arg_type@),
{
    match &request.arg {
        None => Some(Vec::new()),
        Some(args) => {
            let mut out: Vec<ArgType> = Vec::new();
            let mut i: usize = 0;
            while i < args.len()
                invariant
                    request.arg is Some,
                    request.arg->Some_0 == *args,
                    i <= args@.len(),
                    out@.len() == i,
                    forall|j: int| 0 <= j < i ==> encode_utf8(wire_type_name(#[trigger] out@[j])) == encode_utf8(args@[j].arg_type@),
                decreases args@.len() - i,
            {
                match parse_arg_type(&args[i].arg_type) {
                    Some(t) => out.push(t),
                    None => {
                        assert(unknown_type(args@[i as int].arg_type@));
                        return None;
                    },
                }
                i = i + 1;
            }
            Some(out)
        },
    }
}

/// The argument types of each request of an interface, by opcode; `None`
/// when some argument has a type the description language does not know.
pub fn interface_signatures(interface: &Interface) -> (r: Option<Vec<Vec<ArgType>>>)
    ensures
        interface.request is None ==> r is Some && r->Some_0@.len() == 0,
        interface.request is Some && r is Some ==> ({
            let reqs = interface.request->Some_0@;
            &&& r->Some_0@.len() == reqs.len()
            &&& forall|op: int| 0 <= op < reqs.len() ==> (#[trigger] r->Some_0@[op])@.len() == (match reqs[op].arg {
                Some(a) => a@.len(),
                None => 0,
            })
            &&& forall|op: int, i: int| 0 <= op < reqs.len() && reqs[op].arg is Some && 0 <= i < reqs[op].arg->Some_0@.len()
                ==> encode_utf8(wire_type_name(#[trigger] r->Some_0@[op]@[i])) == encode_utf8(reqs[op].arg->Some_0@[i].arg_type@)
        }),
        interface.request is Some && r is None ==> exists|op: int, i: int|
            0 <= op < interface.request->Some_0@.len() && #[trigger] interface.request->Some_0@[op].arg is Some
                && 0 <= i < interface.request->Some_0@[op].arg->Some_0@.len()
                && unknown_type(#[trigger] interface.request->Some_0@[op].arg->Some_0@[i].arg_type@),
{
    match &interface.request {
        None => Some(Vec::new()),
        Some(reqs) => {
            let mut out: Vec<Vec<ArgType>> = Vec::new();
            let mut op: usize = 0;
            while op < reqs.len()
                invariant
                    interface.request is Some,
                    interface.request->Some_0 == *reqs,
                    op <= reqs@.len(),
                    out@.len() == op,
                    forall|o: int| 0 <= o < op ==> (#[trigger] out@[o])@.len() == (match reqs@[o].arg {
                        Some(a) => a@.len(),
                        None => 0,
                    }),
                    forall|o: int, i: int| 0 <= o < op && reqs@[o].arg is Some && 0 <= i < reqs@[o].arg->Some_0@.len()
                        ==> encode_utf8(wire_type_name(#[trigger] out@[o]@[i])) == encode_utf8(reqs@[o].arg->Some_0@[i].arg_type@),
                decreases reqs@.len() - op,
            {
                match request_arg_types(&reqs[op]) {
                    Some(sig) => out.push(sig),
                    None => {
                        assert(reqs@[op as int].arg is Some);
                        return None;
                    },
                }
                op = op + 1;
            }
            Some(out)
        },
    }
}

} // verus!
