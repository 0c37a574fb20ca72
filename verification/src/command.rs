//! Editor commands: the types and values of their parameters, the check of
//! an input against a command's signature, and the registry that maps a
//! command's namespace and name to the handles that invoke it.

use crate::error::NeomacsError;
use crate::keyed::{has_key, keys_unique, lemma_index_of, lemma_push, lemma_to_map_dom, lemma_update, to_map, index_of};
use crate::msgpack::{spec_as_str, MsgString, MsgValue};
use crate::rpc::codec::Request;
use crate::rpc::convert::{decode_error, decode_error_text, DecodeValue, EncodeValue};
use crate::rpc::display::{display_text, value_display};
use crate::rpc::record::{field_decodes, field_reads, keys_are_strings, last_field, lemma_prefix_step, lemma_slot_step, read_slot, slot_holds};
use crate::text::{concat_str, str_eq};
use vstd::prelude::*;
use vstd::string::*;

verus! {

/// The namespace of the commands that the editor itself provides.
pub const BUILT_IN_NAMESPACE: &'static str = "neomacs";

/// Data about the context in which a command was called.
#[derive(Debug)]
pub struct CommandContext {
    pub name: String,
}

/// The type of a command parameter or result.
#[derive(Clone, Copy, Debug, PartialEq, Eq, Hash, Structural)]
pub enum Type {
    Nil,
    Boolean,
    Integer,
    Float,
    String,
    Optional,
    List,
    Dict,
}

/// The type that `name` names, as clients write it.
pub open spec fn type_named(name: Seq<char>) -> Option<Type> {
    if name == "Nil"@ { Some(Type::Nil) }
    else if name == "Boolean"@ { Some(Type::Boolean) }
    else if name == "Integer"@ { Some(Type::Integer) }
    else if name == "Float"@ { Some(Type::Float) }
    else if name == "String"@ { Some(Type::String) }
    else if name == "Optional"@ { Some(Type::Optional) }
    else if name == "List"@ { Some(Type::List) }
    else if name == "Map"@ { Some(Type::Dict) }
    else { None }
}

/// The name a client writes for the type `t`: the variant's own name,
/// with `Map` for a dictionary.
pub open spec fn name_of_type(t: Type) -> Seq<char> {
    match t {
        Type::Nil => "Nil"@,
        Type::Boolean => "Boolean"@,
        Type::Integer => "Integer"@,
        Type::Float => "Float"@,
        Type::String => "String"@,
        Type::Optional => "Optional"@,
        Type::List => "List"@,
        Type::Dict => "Map"@,
    }
}

/// A name names a type exactly when it is that type's name: each type name
/// reads as the variant of the same name, different names read as
/// different types, and no other text names a type.
pub proof fn law_type_names(name: Seq<char>, t: Type)
    ensures
        type_named(name) == Some(t) <==> name == name_of_type(t),
        type_named(name) is None <==> forall|u: Type| name != #[trigger] name_of_type(u),
{
    reveal_strlit("Nil");
    reveal_strlit("Boolean");
    reveal_strlit("Integer");
    reveal_strlit("Float");
    reveal_strlit("String");
    reveal_strlit("Optional");
    reveal_strlit("List");
    reveal_strlit("Map");
    assert(type_named(name_of_type(t)) == Some(t)) by {
        assert("Boolean"@[0] != "Integer"@[0]);
        assert("Boolean"@[0] != "Optional"@[0]);
        assert("Integer"@[0] != "Optional"@[0]);
        assert("String"@[0] != "Float"@[0]);
        assert("Float"@[0] != "Nil"@[0]);
        assert("List"@[0] != "Map"@[0]);
    }
    if type_named(name) is None {
        assert forall|u: Type| name != #[trigger] name_of_type(u) by {
            match u {
                Type::Nil => {},
                Type::Boolean => {},
                Type::Integer => {},
                Type::Float => {},
                Type::String => {},
                Type::Optional => {},
                Type::List => {},
                Type::Dict => {},
            }
        }
    } else {
        let v = type_named(name)->0;
        assert(name == name_of_type(v));
    }
}

/// A MessagePack value reads as the type `t` exactly when it is the string
/// of `t`'s name.
pub proof fn law_type_decodes_by_name(value: MsgValue, t: Type)
    ensures
        Type::decodes_to(value, t) <==> spec_as_str(value) == Some(name_of_type(t)),
{
    match spec_as_str(value) {
        Some(s) => law_type_names(s, t),
        None => {},
    }
}

/// The error for a value that names no type: "Invalid Type: <value>", the
/// value as rmpv writes it.
fn invalid_type(value: &MsgValue) -> (e: NeomacsError)
    ensures
        e matches NeomacsError::MessagePackParse(m) && m@ == "Invalid Type: "@ + display_text(*value),
{
    let mut text = String::from_str("Invalid Type: ");
    let shown = value_display(value);
    text.append(shown.as_str());
    NeomacsError::MessagePackParse(text)
}

impl DecodeValue for Type {
    open spec fn decodes(value: MsgValue) -> bool {
        spec_as_str(value) matches Some(s) && type_named(s) is Some
    }

    open spec fn decodes_to(value: MsgValue, x: Type) -> bool {
        spec_as_str(value) matches Some(s) && type_named(s) == Some(x)
    }

    fn decode_value(value: MsgValue) -> (r: Result<Type, NeomacsError>)
        ensures
            r matches Err(NeomacsError::MessagePackParse(m)) ==> m@ == "Invalid Type: "@ + display_text(value),
    {
        let s = match value.as_str() {
            Some(s) => s.as_str(),
            None => return Err(invalid_type(&value)),
        };
        proof {
            reveal_strlit("Nil");
            reveal_strlit("Boolean");
            reveal_strlit("Integer");
            reveal_strlit("Float");
            reveal_strlit("String");
            reveal_strlit("Optional");
            reveal_strlit("List");
            reveal_strlit("Map");
        }
        if str_eq(s, "Nil") {
            Ok(Type::Nil)
        } else if str_eq(s, "Boolean") {
            Ok(Type::Boolean)
        } else if str_eq(s, "Integer") {
            Ok(Type::Integer)
        } else if str_eq(s, "Float") {
            Ok(Type::Float)
        } else if str_eq(s, "String") {
            Ok(Type::String)
        } else if str_eq(s, "Optional") {
            Ok(Type::Optional)
        } else if str_eq(s, "List") {
            Ok(Type::List)
        } else if str_eq(s, "Map") {
            Ok(Type::Dict)
        } else {
            Err(invalid_type(&value))
        }
    }
}

/// A value passed to or returned by a command.
#[derive(Debug, PartialEq, Eq, Hash)]
pub enum Value {
    Nil,
    Boolean(bool),
    Integer(i64),
    /// A float, by the bit pattern of its `f64`.
    Float(u64),
    String(String),
    Optional(Option<Box<Value>>),
    List(Vec<Value>),
    Dict(Vec<(Value, Value)>),
}

impl Value {
    /// The type of a value.
    pub open spec fn spec_type(self) -> Type {
        match self {
            Value::Nil => Type::Nil,
            Value::Boolean(_) => Type::Boolean,
            Value::Integer(_) => Type::Integer,
            Value::Float(_) => Type::Float,
            Value::String(_) => Type::String,
            Value::Optional(_) => Type::Optional,
            Value::List(_) => Type::List,
            Value::Dict(_) => Type::Dict,
        }
    }

    pub fn get_type(&self) -> (t: Type)
        ensures
            t == self.spec_type(),
    {
        match self {
            Value::Nil => Type::Nil,
            Value::Boolean(_) => Type::Boolean,
            Value::Integer(_) => Type::Integer,
            Value::Float(_) => Type::Float,
            Value::String(_) => Type::String,
            Value::Optional(_) => Type::Optional,
            Value::List(_) => Type::List,
            Value::Dict(_) => Type::Dict,
        }
    }
}

/// Whether `input` has as many values as `expected` names types, each of the type named.
pub open spec fn input_matches(expected: Seq<Type>, input: Seq<Value>) -> bool {
    &&& expected.len() == input.len()
    &&& forall|i: int| 0 <= i < input.len() ==> (#[trigger] input[i]).spec_type() == expected[i]
}

/// An input that passes the check has, at every position, a value of the
/// type expected there; and an input of the right length with a value of
/// the expected type at every position passes.
pub proof fn law_input_checked_at_every_position(expected: Seq<Type>, input: Seq<Value>, k: int)
    ensures
        input_matches(expected, input) && 0 <= k < input.len() ==> input[k].spec_type() == expected[k],
        input_matches(expected, input) ==> expected.len() == input.len(),
        expected.len() == input.len() && (forall|j: int| 0 <= j < input.len() ==> #[trigger] input[j].spec_type() == expected[j])
            ==> input_matches(expected, input),
{
}

/// A value of a different type at any one position fails the check, however
/// the other positions stand.
pub proof fn law_input_mismatch_anywhere(expected: Seq<Type>, input: Seq<Value>, k: int)
    requires
        0 <= k < input.len(),
        input[k].spec_type() != expected[k],
    ensures
        !input_matches(expected, input),
{
}

/// The type of a value is the type of its variant: nil, booleans,
/// integers, floats, strings, optional values, lists and dictionaries
/// have the types of the same names.
pub proof fn law_value_types(v: Value)
    ensures
        v is Nil <==> v.spec_type() == Type::Nil,
        v is Boolean <==> v.spec_type() == Type::Boolean,
        v is Integer <==> v.spec_type() == Type::Integer,
        v is Float <==> v.spec_type() == Type::Float,
        v is String <==> v.spec_type() == Type::String,
        v is Optional <==> v.spec_type() == Type::Optional,
        v is List <==> v.spec_type() == Type::List,
        v is Dict <==> v.spec_type() == Type::Dict,
{
}

/// Checks `input` against the parameter types `expected` of the command
/// `command`. Gives the input back where it matches, and otherwise an
/// `InvalidCommandInput` error that holds the command's name, the expected
/// types and the input.
pub fn validate_command_input(command: &str, expected: &Vec<Type>, input: Vec<Value>) -> (r: Result<Vec<Value>, NeomacsError>)
    ensures
        r is Ok <==> input_matches(expected@, input@),
        r matches Ok(v) ==> v == input,
        r matches Err(e) ==> (e matches NeomacsError::InvalidCommandInput { command: c, expected_input: t, input: i }
            && (c@ == command@ && t@ == expected@ && i == input)),
{
    if expected.len() != input.len() {
        return Err(NeomacsError::invalid_command_input(command, copy_types(expected), input));
    }
    let mut i: usize = 0;
    while i < input.len()
        invariant
            expected@.len() == input@.len(),
            i <= input@.len(),
            forall|j: int| 0 <= j < i ==> (#[trigger] input@[j]).spec_type() == expected@[j],
        decreases input@.len() - i,
    {
        if input[i].get_type() != expected[i] {
            return Err(NeomacsError::invalid_command_input(command, copy_types(expected), input));
        }
        i += 1;
    }
    Ok(input)
}

/// A copy of a list of types.
pub fn copy_types(types: &Vec<Type>) -> (r: Vec<Type>)
    ensures
        r@ == types@,
{
    let mut r: Vec<Type> = Vec::new();
    let mut i: usize = 0;
    while i < types.len()
        invariant
            i <= types@.len(),
            r@ == types@.subrange(0, i as int),
        decreases types@.len() - i,
    {
        r.push(types[i]);
        i += 1;
        assert(r@ =~= types@.subrange(0, i as int));
    }
    assert(r@ =~= types@);
    r
}

impl EncodeValue for CommandContext {
    open spec fn encodes_to(&self, v: MsgValue) -> bool {
        &&& v matches MsgValue::Dict(m)
        &&& m@.len() == 1
        &&& m@[0].0 matches MsgValue::String(MsgString::Valid(k))
        &&& k@ == "name"@
        &&& m@[0].1 matches MsgValue::String(MsgString::Valid(n))
        &&& n@ == self.name@
    }

    fn encode_value(&self) -> (v: MsgValue) {
        proof { reveal_strlit("name"); }
        let mut m: Vec<(MsgValue, MsgValue)> = Vec::new();
        m.push((MsgValue::String(MsgString::Valid(String::from_str("name"))),
            MsgValue::String(MsgString::Valid(self.name.clone()))));
        MsgValue::Dict(m)
    }
}

/// The name by which a command is registered: its namespace and its own name.
#[derive(Debug)]
pub struct DispatcherKey {
    pub namespace: String,
    pub name: String,
}

impl DispatcherKey {
    pub fn new(namespace: &str, name: &str) -> (k: Self)
        ensures
            k.namespace@ == namespace@,
            k.name@ == name@,
    {
        Self { namespace: String::from_str(namespace), name: String::from_str(name) }
    }

    /// The key as a pair of texts.
    pub open spec fn spec_key(self) -> (Seq<char>, Seq<char>) {
        (self.namespace@, self.name@)
    }

    /// Whether this key is `(namespace, name)`.
    pub fn names(&self, namespace: &str, name: &str) -> (r: bool)
        ensures
            r == (self.spec_key() == (namespace@, name@)),
    {
        str_eq(self.namespace.as_str(), namespace) && str_eq(self.name.as_str(), name)
    }
}

/// The key of a registry entry.
pub open spec fn entry_key<H>(e: (DispatcherKey, H)) -> (Seq<char>, Seq<char>) {
    e.0.spec_key()
}

/// Command handles of type `H`, each registered under one namespace and
/// name, as an ordered map holds them.
pub struct CommandRegistry<H> {
    entries: Vec<(DispatcherKey, H)>,
}

impl<H> CommandRegistry<H> {
    /// The registry as a map from (namespace, name) to the entry.
    pub closed spec fn entries_map(self) -> Map<(Seq<char>, Seq<char>), (DispatcherKey, H)> {
        to_map(self.entries@, |e: (DispatcherKey, H)| entry_key(e))
    }

    /// No two entries share a key.
    pub closed spec fn wf(self) -> bool {
        keys_unique(self.entries@, |e: (DispatcherKey, H)| entry_key(e))
    }

    /// The map from each registered (namespace, name) to its handle.
    pub open spec fn handles(self) -> Map<(Seq<char>, Seq<char>), H> {
        self.entries_map().map_values(|e: (DispatcherKey, H)| e.1)
    }

    /// An empty registry.
    pub fn new() -> (r: Self)
        ensures
            r.wf(),
            r.handles() == Map::<(Seq<char>, Seq<char>), H>::empty(),
    {
        let r = CommandRegistry { entries: Vec::new() };
        assert(r.entries_map() =~= Map::empty());
        assert(r.handles() =~= Map::empty());
        r
    }

    /// Registers `handle` under `(namespace, name)`, replacing what was
    /// registered there before.
    pub fn register(&mut self, namespace: &str, name: &str, handle: H)
        requires
            old(self).wf(),
        ensures
            final(self).wf(),
            final(self).handles() == old(self).handles().insert((namespace@, name@), handle),
    {
        let ghost f = |e: (DispatcherKey, H)| entry_key(e);
        let ghost k = (namespace@, name@);
        let mut i: usize = 0;
        while i < self.entries.len()
            invariant
                i <= self.entries@.len(),
                k == (namespace@, name@),
                *self == *old(self),
                f == |e: (DispatcherKey, H)| entry_key(e),
                self.wf(),
                forall|j: int| 0 <= j < i ==> entry_key(#[trigger] self.entries@[j]) != k,
            decreases self.entries@.len() - i,
        {
            if self.entries[i].0.names(namespace, name) {
                let ghost old_entries = self.entries@;
                let key = DispatcherKey::new(namespace, name);
                self.entries.set(i, (key, handle));
                proof {
                    lemma_update(old_entries, f, i as int, (DispatcherKey { namespace: key.namespace, name: key.name }, handle));
                    assert(self.entries@ == old_entries.update(i as int, (DispatcherKey { namespace: key.namespace, name: key.name }, handle)));
                    assert(self.handles() =~= old(self).handles().insert(k, handle));
                }
                return;
            }
            i += 1;
        }
        let ghost old_entries = self.entries@;
        proof {
            if has_key(old_entries, f, k) {
                let j = choose|j: int| 0 <= j < old_entries.len() && f(#[trigger] old_entries[j]) == k;
                assert(entry_key(old_entries[j]) == k);
            }
        }
        let key = DispatcherKey::new(namespace, name);
        self.entries.push((key, handle));
        proof {
            lemma_push(old_entries, f, (DispatcherKey { namespace: key.namespace, name: key.name }, handle));
            assert(self.handles() =~= old(self).handles().insert(k, handle));
        }
    }

    /// The handle registered under `(namespace, name)`, if any.
    pub fn get(&self, namespace: &str, name: &str) -> (r: Option<&H>)
        requires
            self.wf(),
        ensures
            self.handles().dom().contains((namespace@, name@)) ==> r == Some(&self.handles()[(namespace@, name@)]),
            !self.handles().dom().contains((namespace@, name@)) ==> r is None,
    {
        let ghost f = |e: (DispatcherKey, H)| entry_key(e);
        let ghost k = (namespace@, name@);
        let mut i: usize = 0;
        while i < self.entries.len()
            invariant
                i <= self.entries@.len(),
                k == (namespace@, name@),
                f == |e: (DispatcherKey, H)| entry_key(e),
                self.wf(),
                forall|j: int| 0 <= j < i ==> entry_key(#[trigger] self.entries@[j]) != k,
            decreases self.entries@.len() - i,
        {
            let found = self.entries[i].0.names(namespace, name);
            assert(found == (self.entries@[i as int].0.spec_key() == k));
            if found {
                proof {
                    assert(f(self.entries@[i as int]) == k);
                    assert(has_key(self.entries@, f, k));
                    lemma_index_of(self.entries@, f, k);
                    lemma_to_map_dom(self.entries@, f, k);
                    let j = index_of(self.entries@, f, k);
                    assert(j == i) by {
                        if j != i {
                            assert(f(self.entries@[j]) != f(self.entries@[i as int]));
                        }
                    }
                }
                return Some(&self.entries[i].1);
            }
            i += 1;
        }
        proof {
            lemma_to_map_dom(self.entries@, f, k);
            if has_key(self.entries@, f, k) {
                let j = choose|j: int| 0 <= j < self.entries@.len() && f(#[trigger] self.entries@[j]) == k;
                assert(entry_key(self.entries@[j]) == k);
            }
        }
        None
    }
}

impl<H> CommandRegistry<H> {
    /// The handle registered under `(namespace, name)`, or a `DoesNotExist`
    /// error that names the command.
    pub fn lookup(&self, namespace: &str, name: &str) -> (r: Result<&H, NeomacsError>)
        requires
            self.wf(),
        ensures
            self.handles().dom().contains((namespace@, name@)) ==> r == Ok::<&H, NeomacsError>(&self.handles()[(namespace@, name@)]),
            !self.handles().dom().contains((namespace@, name@)) ==> (r matches Err(NeomacsError::DoesNotExist(t))
                && t@ == "Command "@ + name@),
    {
        match self.get(namespace, name) {
            Some(h) => Ok(h),
            None => Err(NeomacsError::DoesNotExist(concat_str("Command ", name))),
        }
    }
}

/// The RPC requests that the command dispatcher answers.
#[derive(Clone, Copy, Debug, PartialEq, Eq, Structural)]
pub enum CommandRequest {
    /// A client defines a command of its own.
    Defcommand,
    /// A client invokes a command with given parameters.
    Invoke,
    /// A client invokes a command, whose parameters are computed.
    InvokeInteractively,
}

/// The methods that the command dispatcher says it answers.
pub fn handled_methods() -> (r: Vec<&'static str>)
    ensures
        r@.len() == 3,
        r@[0]@ == "defcommand"@,
        r@[1]@ == "invoke_cmd"@,
        r@[2]@ == "invoke_cmd_interactively"@,
{
    proof {
        reveal_strlit("defcommand");
        reveal_strlit("invoke_cmd");
        reveal_strlit("invoke_cmd_interactively");
    }
    let mut v: Vec<&'static str> = Vec::new();
    v.push("defcommand");
    v.push("invoke_cmd");
    v.push("invoke_cmd_interactively");
    v
}

/// The request that `method` names, as the dispatcher routes it:
/// `defcommand`, `invoke` and `invoke_interactively`; any other method is
/// an invalid message.
pub fn route(method: &str) -> (r: Result<CommandRequest, NeomacsError>)
    ensures
        method@ == "defcommand"@ ==> r == Ok::<CommandRequest, NeomacsError>(CommandRequest::Defcommand),
        method@ == "invoke"@ ==> r == Ok::<CommandRequest, NeomacsError>(CommandRequest::Invoke),
        method@ == "invoke_interactively"@ ==> r == Ok::<CommandRequest, NeomacsError>(CommandRequest::InvokeInteractively),
        method@ != "defcommand"@ && method@ != "invoke"@ && method@ != "invoke_interactively"@
            ==> r matches Err(NeomacsError::InvalidRPCMessage),
{
    proof {
        reveal_strlit("defcommand");
        reveal_strlit("invoke");
        reveal_strlit("invoke_interactively");
        assert("invoke"@.len() != "defcommand"@.len());
        assert("invoke_interactively"@.len() != "defcommand"@.len());
        assert("invoke_interactively"@.len() != "invoke"@.len());
    }
    if str_eq(method, "defcommand") {
        Ok(CommandRequest::Defcommand)
    } else if str_eq(method, "invoke") {
        Ok(CommandRequest::Invoke)
    } else if str_eq(method, "invoke_interactively") {
        Ok(CommandRequest::InvokeInteractively)
    } else {
        Err(NeomacsError::InvalidRPCMessage)
    }
}

/// The one parameter of a dispatcher request; a request with any other
/// number of parameters is an invalid message.
pub fn single_param(request: &Request) -> (r: Result<&MsgValue, NeomacsError>)
    ensures
        request.params@.len() == 1 ==> r == Ok::<&MsgValue, NeomacsError>(&request.params@[0]),
        request.params@.len() != 1 ==> r matches Err(NeomacsError::InvalidRPCMessage),
{
    if request.params.len() != 1 {
        return Err(NeomacsError::InvalidRPCMessage);
    }
    Ok(&request.params[0])
}

/// The context in which a command named `name` is invoked.
pub fn make_context(name: &str) -> (c: CommandContext)
    ensures
        c.name@ == name@,
{
    CommandContext { name: String::from_str(name) }
}

/// A command that a client defines: its namespace and name, the types of
/// its parameters and the type of its result.
#[derive(Debug)]
pub struct ExternalCommand {
    pub namespace: String,
    pub name: String,
    pub param_types: Vec<Type>,
    pub return_type: Type,
}

impl DecodeValue for ExternalCommand {
    open spec fn decodes(value: MsgValue) -> bool {
        &&& value matches MsgValue::Dict(m)
        &&& keys_are_strings(m@)
        &&& field_decodes::<String>(m@, "namespace"@) && last_field(m@, "namespace"@) is Some
        &&& field_decodes::<String>(m@, "name"@) && last_field(m@, "name"@) is Some
        &&& field_decodes::<Vec<Type>>(m@, "param_types"@) && last_field(m@, "param_types"@) is Some
        &&& field_decodes::<Type>(m@, "return_type"@) && last_field(m@, "return_type"@) is Some
    }

    open spec fn decodes_to(value: MsgValue, x: ExternalCommand) -> bool {
        &&& value matches MsgValue::Dict(m)
        &&& field_reads(m@, "namespace"@, x.namespace)
        &&& field_reads(m@, "name"@, x.name)
        &&& field_reads(m@, "param_types"@, x.param_types)
        &&& field_reads(m@, "return_type"@, x.return_type)
    }

    fn decode_value(value: MsgValue) -> (r: Result<ExternalCommand, NeomacsError>)
        ensures
            (!(value is Dict) || (value matches MsgValue::Dict(m) && field_decodes::<String>(m@, "namespace"@) && field_decodes::<String>(m@, "name"@) && field_decodes::<Vec<Type>>(m@, "param_types"@) && field_decodes::<Type>(m@, "return_type"@)))
                ==> (r matches Err(NeomacsError::MessagePackParse(t)) ==> t@ == decode_error_text("ExternalCommand"@, value)),
    {
        proof {
            reveal_strlit("namespace");
            reveal_strlit("name");
            reveal_strlit("param_types");
            reveal_strlit("return_type");
            assert("param_types"@[0] != "return_type"@[0]);
            assert("namespace"@.len() != "name"@.len());
            assert("namespace"@.len() != "param_types"@.len());
            assert("namespace"@.len() != "return_type"@.len());
            assert("name"@.len() != "param_types"@.len());
            assert("name"@.len() != "return_type"@.len());
        }
        if !value.is_map() {
            return Err(decode_error("ExternalCommand", &value));
        }
        let err = decode_error("ExternalCommand", &value);
        let ghost whole = value;
        let entries = match value {
            MsgValue::Dict(m) => m,
            _ => return Err(err),
        };
        let ghost orig = entries@;
        let mut rest = entries;
        let mut namespace: Option<String> = None;
        let mut name: Option<String> = None;
        let mut param_types: Option<Vec<Type>> = None;
        let mut return_type: Option<Type> = None;
        let ghost mut k: int = 0;
        while rest.len() > 0
            invariant
                value == whole,
                whole matches MsgValue::Dict(v) && v@ == orig,
                err matches NeomacsError::MessagePackParse(t) && t@ == decode_error_text("ExternalCommand"@, whole),
                0 <= k <= orig.len(),
                rest@ == orig.subrange(k, orig.len() as int),
                "param_types"@ != "return_type"@,
                "namespace"@ != "name"@,
                "namespace"@ != "param_types"@ && "namespace"@ != "return_type"@,
                "name"@ != "param_types"@ && "name"@ != "return_type"@,
                keys_are_strings(orig.subrange(0, k)),
                slot_holds(orig.subrange(0, k), "namespace"@, namespace),
                slot_holds(orig.subrange(0, k), "name"@, name),
                slot_holds(orig.subrange(0, k), "param_types"@, param_types),
                slot_holds(orig.subrange(0, k), "return_type"@, return_type),
            decreases rest.len(),
        {
            let ghost e = orig[k];
            let (key, v) = rest.remove(0);
            assert((key, v) == e);
            proof { lemma_prefix_step(orig, k); }
            let key = match key {
                MsgValue::String(MsgString::Valid(s)) => s,
                _ => {
                    assert(!keys_are_strings(orig)) by {
                        assert(spec_as_str(orig[k].0) is None);
                    }
                    return Err(err);
                },
            };
            let ghost before = (namespace, name, param_types, return_type);
            if str_eq(key.as_str(), "namespace") {
                if let Err(err) = read_slot(&mut namespace, v) {
                    assert(!field_decodes::<String>(orig, "namespace"@)) by {
                        assert(spec_as_str(orig[k].0) == Some("namespace"@));
                    }
                    return Err(err);
                }
            } else if str_eq(key.as_str(), "name") {
                if let Err(err) = read_slot(&mut name, v) {
                    assert(!field_decodes::<String>(orig, "name"@)) by {
                        assert(spec_as_str(orig[k].0) == Some("name"@));
                    }
                    return Err(err);
                }
            } else if str_eq(key.as_str(), "param_types") {
                if let Err(err) = read_slot(&mut param_types, v) {
                    assert(!field_decodes::<Vec<Type>>(orig, "param_types"@)) by {
                        assert(spec_as_str(orig[k].0) == Some("param_types"@));
                    }
                    return Err(err);
                }
            } else if str_eq(key.as_str(), "return_type") {
                if let Err(err) = read_slot(&mut return_type, v) {
                    assert(!field_decodes::<Type>(orig, "return_type"@)) by {
                        assert(spec_as_str(orig[k].0) == Some("return_type"@));
                    }
                    return Err(err);
                }
            }
            proof {
                let p = orig.subrange(0, k);
                lemma_slot_step(p, e, "namespace"@, before.0, namespace);
                lemma_slot_step(p, e, "name"@, before.1, name);
                lemma_slot_step(p, e, "param_types"@, before.2, param_types);
                lemma_slot_step(p, e, "return_type"@, before.3, return_type);
                k = k + 1;
            }
        }
        assert(orig.subrange(0, k) =~= orig);
        match (namespace, name, param_types, return_type) {
            (Some(namespace), Some(name), Some(param_types), Some(return_type)) => {
                Ok(ExternalCommand { namespace, name, param_types, return_type })
            },
            _ => Err(err),
        }
    }
}

/// A client's request to invoke a command interactively: the command's
/// namespace and name.
#[derive(Debug)]
pub struct RpcInvokeInteractivelyRequest {
    pub namespace: String,
    pub name: String,
}

impl DecodeValue for RpcInvokeInteractivelyRequest {
    open spec fn decodes(value: MsgValue) -> bool {
        &&& value matches MsgValue::Dict(m)
        &&& keys_are_strings(m@)
        &&& field_decodes::<String>(m@, "namespace"@) && last_field(m@, "namespace"@) is Some
        &&& field_decodes::<String>(m@, "name"@) && last_field(m@, "name"@) is Some
    }

    open spec fn decodes_to(value: MsgValue, x: RpcInvokeInteractivelyRequest) -> bool {
        &&& value matches MsgValue::Dict(m)
        &&& field_reads(m@, "namespace"@, x.namespace)
        &&& field_reads(m@, "name"@, x.name)
    }

    fn decode_value(value: MsgValue) -> (r: Result<RpcInvokeInteractivelyRequest, NeomacsError>)
        ensures
            (!(value is Dict) || (value matches MsgValue::Dict(m) && field_decodes::<String>(m@, "namespace"@) && field_decodes::<String>(m@, "name"@)))
                ==> (r matches Err(NeomacsError::MessagePackParse(t)) ==> t@ == decode_error_text("RpcInvokeInteractivelyRequest"@, value)),
    {
        proof {
            reveal_strlit("namespace");
            reveal_strlit("name");
            assert("namespace"@.len() != "name"@.len());
        }
        if !value.is_map() {
            return Err(decode_error("RpcInvokeInteractivelyRequest", &value));
        }
        let err = decode_error("RpcInvokeInteractivelyRequest", &value);
        let ghost whole = value;
        let entries = match value {
            MsgValue::Dict(m) => m,
            _ => return Err(err),
        };
        let ghost orig = entries@;
        let mut rest = entries;
        let mut namespace: Option<String> = None;
        let mut name: Option<String> = None;
        let ghost mut k: int = 0;
        while rest.len() > 0
            invariant
                value == whole,
                whole matches MsgValue::Dict(v) && v@ == orig,
                err matches NeomacsError::MessagePackParse(t) && t@ == decode_error_text("RpcInvokeInteractivelyRequest"@, whole),
                0 <= k <= orig.len(),
                rest@ == orig.subrange(k, orig.len() as int),
                "namespace"@ != "name"@,
                keys_are_strings(orig.subrange(0, k)),
                slot_holds(orig.subrange(0, k), "namespace"@, namespace),
                slot_holds(orig.subrange(0, k), "name"@, name),
            decreases rest.len(),
        {
            let ghost e = orig[k];
            let (key, v) = rest.remove(0);
            assert((key, v) == e);
            proof { lemma_prefix_step(orig, k); }
            let key = match key {
                MsgValue::String(MsgString::Valid(s)) => s,
                _ => {
                    assert(!keys_are_strings(orig)) by {
                        assert(spec_as_str(orig[k].0) is None);
                    }
                    return Err(err);
                },
            };
            let ghost before = (namespace, name);
            if str_eq(key.as_str(), "namespace") {
                if let Err(err) = read_slot(&mut namespace, v) {
                    assert(!field_decodes::<String>(orig, "namespace"@)) by {
                        assert(spec_as_str(orig[k].0) == Some("namespace"@));
                    }
                    return Err(err);
                }
            } else if str_eq(key.as_str(), "name") {
                if let Err(err) = read_slot(&mut name, v) {
                    assert(!field_decodes::<String>(orig, "name"@)) by {
                        assert(spec_as_str(orig[k].0) == Some("name"@));
                    }
                    return Err(err);
                }
            }
            proof {
                let p = orig.subrange(0, k);
                lemma_slot_step(p, e, "namespace"@, before.0, namespace);
                lemma_slot_step(p, e, "name"@, before.1, name);
                k = k + 1;
            }
        }
        assert(orig.subrange(0, k) =~= orig);
        match (namespace, name) {
            (Some(namespace), Some(name)) => Ok(RpcInvokeInteractivelyRequest { namespace, name }),
            _ => Err(err),
        }
    }
}

/// The request by which the editor asks the client that defined `command`
/// to compute its parameters, in the context `context`.
#[derive(Debug)]
pub struct ComputeInputsRequest {
    pub command: String,
    pub context: CommandContext,
}

impl EncodeValue for ComputeInputsRequest {
    open spec fn encodes_to(&self, v: MsgValue) -> bool {
        &&& v matches MsgValue::Dict(m)
        &&& m@.len() == 2
        &&& spec_as_str(m@[0].0) == Some("command"@)
        &&& m@[0].1 matches MsgValue::String(MsgString::Valid(c)) && c@ == self.command@
        &&& spec_as_str(m@[1].0) == Some("context"@)
        &&& self.context.encodes_to(m@[1].1)
    }

    fn encode_value(&self) -> (v: MsgValue) {
        proof {
            reveal_strlit("command");
            reveal_strlit("context");
        }
        let mut m: Vec<(MsgValue, MsgValue)> = Vec::new();
        m.push((MsgValue::from_string(String::from_str("command")), MsgValue::String(MsgString::Valid(self.command.clone()))));
        m.push((MsgValue::from_string(String::from_str("context")), self.context.encode_value()));
        MsgValue::Dict(m)
    }
}


/// A client's request to invoke a command with the parameters `params`.
#[derive(Debug)]
pub struct RpcInvokeRequest<V> {
    pub namespace: String,
    pub name: String,
    pub params: Vec<V>,
}

impl<V: DecodeValue> DecodeValue for RpcInvokeRequest<V> {
    open spec fn decodes(value: MsgValue) -> bool {
        &&& value matches MsgValue::Dict(m)
        &&& keys_are_strings(m@)
        &&& field_decodes::<String>(m@, "namespace"@) && last_field(m@, "namespace"@) is Some
        &&& field_decodes::<String>(m@, "name"@) && last_field(m@, "name"@) is Some
        &&& field_decodes::<Vec<V>>(m@, "params"@) && last_field(m@, "params"@) is Some
    }

    open spec fn decodes_to(value: MsgValue, x: RpcInvokeRequest<V>) -> bool {
        &&& value matches MsgValue::Dict(m)
        &&& field_reads(m@, "namespace"@, x.namespace)
        &&& field_reads(m@, "name"@, x.name)
        &&& field_reads(m@, "params"@, x.params)
    }

    fn decode_value(value: MsgValue) -> (r: Result<RpcInvokeRequest<V>, NeomacsError>)
        ensures
            (!(value is Dict) || (value matches MsgValue::Dict(m) && field_decodes::<String>(m@, "namespace"@) && field_decodes::<String>(m@, "name"@) && field_decodes::<Vec<V>>(m@, "params"@)))
                ==> (r matches Err(NeomacsError::MessagePackParse(t)) ==> t@ == decode_error_text("RpcInvokeRequest"@, value)),
    {
        proof {
            reveal_strlit("namespace");
            reveal_strlit("name");
            reveal_strlit("params");
            assert("namespace"@.len() != "name"@.len());
            assert("namespace"@.len() != "params"@.len());
            assert("name"@.len() != "params"@.len());
        }
        if !value.is_map() {
            return Err(decode_error("RpcInvokeRequest", &value));
        }
        let err = decode_error("RpcInvokeRequest", &value);
        let ghost whole = value;
        let entries = match value {
            MsgValue::Dict(m) => m,
            _ => return Err(err),
        };
        let ghost orig = entries@;
        let mut rest = entries;
        let mut namespace: Option<String> = None;
        let mut name: Option<String> = None;
        let mut params: Option<Vec<V>> = None;
        let ghost mut k: int = 0;
        while rest.len() > 0
            invariant
                value == whole,
                whole matches MsgValue::Dict(v) && v@ == orig,
                err matches NeomacsError::MessagePackParse(t) && t@ == decode_error_text("RpcInvokeRequest"@, whole),
                0 <= k <= orig.len(),
                rest@ == orig.subrange(k, orig.len() as int),
                "namespace"@ != "name"@ && "namespace"@ != "params"@ && "name"@ != "params"@,
                keys_are_strings(orig.subrange(0, k)),
                slot_holds(orig.subrange(0, k), "namespace"@, namespace),
                slot_holds(orig.subrange(0, k), "name"@, name),
                slot_holds(orig.subrange(0, k), "params"@, params),
            decreases rest.len(),
        {
            let ghost e = orig[k];
            let (key, v) = rest.remove(0);
            assert((key, v) == e);
            proof { lemma_prefix_step(orig, k); }
            let key = match key {
                MsgValue::String(MsgString::Valid(s)) => s,
                _ => {
                    assert(!keys_are_strings(orig)) by {
                        assert(spec_as_str(orig[k].0) is None);
                    }
                    return Err(err);
                },
            };
            let ghost before = (namespace, name, params);
            if str_eq(key.as_str(), "namespace") {
                if let Err(err) = read_slot(&mut namespace, v) {
                    assert(!field_decodes::<String>(orig, "namespace"@)) by {
                        assert(spec_as_str(orig[k].0) == Some("namespace"@));
                    }
                    return Err(err);
                }
            } else if str_eq(key.as_str(), "name") {
                if let Err(err) = read_slot(&mut name, v) {
                    assert(!field_decodes::<String>(orig, "name"@)) by {
                        assert(spec_as_str(orig[k].0) == Some("name"@));
                    }
                    return Err(err);
                }
            } else if str_eq(key.as_str(), "params") {
                if let Err(err) = read_slot(&mut params, v) {
                    assert(!field_decodes::<Vec<V>>(orig, "params"@)) by {
                        assert(spec_as_str(orig[k].0) == Some("params"@));
                    }
                    return Err(err);
                }
            }
            proof {
                let p = orig.subrange(0, k);
                lemma_slot_step(p, e, "namespace"@, before.0, namespace);
                lemma_slot_step(p, e, "name"@, before.1, name);
                lemma_slot_step(p, e, "params"@, before.2, params);
                k = k + 1;
            }
        }
        assert(orig.subrange(0, k) =~= orig);
        match (namespace, name, params) {
            (Some(namespace), Some(name), Some(params)) => Ok(RpcInvokeRequest { namespace, name, params }),
            _ => Err(err),
        }
    }
}

/// A client's answer to a request to compute a command's parameters.
#[derive(Debug)]
pub struct ComputeInputsResponse<V> {
    pub params: Vec<V>,
}

impl<V: DecodeValue> DecodeValue for ComputeInputsResponse<V> {
    open spec fn decodes(value: MsgValue) -> bool {
        &&& value matches MsgValue::Dict(m)
        &&& keys_are_strings(m@)
        &&& field_decodes::<Vec<V>>(m@, "params"@) && last_field(m@, "params"@) is Some
    }

    open spec fn decodes_to(value: MsgValue, x: ComputeInputsResponse<V>) -> bool {
        &&& value matches MsgValue::Dict(m)
        &&& field_reads(m@, "params"@, x.params)
    }

    fn decode_value(value: MsgValue) -> (r: Result<ComputeInputsResponse<V>, NeomacsError>)
        ensures
            (!(value is Dict) || (value matches MsgValue::Dict(m) && field_decodes::<Vec<V>>(m@, "params"@)))
                ==> (r matches Err(NeomacsError::MessagePackParse(t)) ==> t@ == decode_error_text("ComputeInputsResponse"@, value)),
    {
        proof { reveal_strlit("params"); }
        if !value.is_map() {
            return Err(decode_error("ComputeInputsResponse", &value));
        }
        let err = decode_error("ComputeInputsResponse", &value);
        let ghost whole = value;
        let entries = match value {
            MsgValue::Dict(m) => m,
            _ => return Err(err),
        };
        let ghost orig = entries@;
        let mut rest = entries;
        let mut params: Option<Vec<V>> = None;
        let ghost mut k: int = 0;
        while rest.len() > 0
            invariant
                value == whole,
                whole matches MsgValue::Dict(v) && v@ == orig,
                err matches NeomacsError::MessagePackParse(t) && t@ == decode_error_text("ComputeInputsResponse"@, whole),
                0 <= k <= orig.len(),
                rest@ == orig.subrange(k, orig.len() as int),
                keys_are_strings(orig.subrange(0, k)),
                slot_holds(orig.subrange(0, k), "params"@, params),
            decreases rest.len(),
        {
            let ghost e = orig[k];
            let (key, v) = rest.remove(0);
            assert((key, v) == e);
            proof { lemma_prefix_step(orig, k); }
            let key = match key {
                MsgValue::String(MsgString::Valid(s)) => s,
                _ => {
                    assert(!keys_are_strings(orig)) by {
                        assert(spec_as_str(orig[k].0) is None);
                    }
                    return Err(err);
                },
            };
            let ghost before = params;
            if str_eq(key.as_str(), "params") {
                if let Err(err) = read_slot(&mut params, v) {
                    assert(!field_decodes::<Vec<V>>(orig, "params"@)) by {
                        assert(spec_as_str(orig[k].0) == Some("params"@));
                    }
                    return Err(err);
                }
            }
            proof {
                lemma_slot_step(orig.subrange(0, k), e, "params"@, before, params);
                k = k + 1;
            }
        }
        assert(orig.subrange(0, k) =~= orig);
        match params {
            Some(params) => Ok(ComputeInputsResponse { params }),
            None => Err(err),
        }
    }
}

/// The request by which the editor asks the client that defined `command`
/// to run it with the parameters `params`, already written as MessagePack
/// values.
#[derive(Debug)]
pub struct InvokeRequest {
    pub command: String,
    pub params: Vec<MsgValue>,
}

impl InvokeRequest {
    /// The request as the map `{"command": <command>, "params": [<params>...]}`.
    pub fn into_value(self) -> (v: MsgValue)
        ensures
            v matches MsgValue::Dict(m) && m@.len() == 2
                && spec_as_str(m@[0].0) == Some("command"@)
                && (m@[0].1 matches MsgValue::String(MsgString::Valid(c)) && c@ == self.command@)
                && spec_as_str(m@[1].0) == Some("params"@)
                && (m@[1].1 matches MsgValue::Array(a) && a@ == self.params@),
    {
        proof {
            reveal_strlit("command");
            reveal_strlit("params");
        }
        let mut m: Vec<(MsgValue, MsgValue)> = Vec::new();
        m.push((MsgValue::from_string(String::from_str("command")), MsgValue::String(MsgString::Valid(self.command))));
        m.push((MsgValue::from_string(String::from_str("params")), MsgValue::Array(self.params)));
        MsgValue::Dict(m)
    }
}

} // verus!
