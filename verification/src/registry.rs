use vstd::prelude::*;
use vstd::string::StringExecFns;
use crate::errors::DispatchError;
use crate::errors::InvocationError;
use crate::json::json_error_text;
use crate::json::json_text_of;
use crate::json::value_to_text;
use crate::traits::ToolHandler;

verus! {

/// Pure data describing one registered tool: its name, its description, and
/// a JSON document describing its parameter shape.
pub struct ToolDescriptor {
    pub name: String,
    pub description: String,
    pub schema: serde_json::Value,
}

/// One invocation attempt: a caller-assigned opaque identifier, the name of
/// the tool to call, and JSON arguments for it. The registry never inspects
/// `call_id` except to echo it back in the matching response.
pub struct CallRequest {
    pub call_id: String,
    pub fn_name: String,
    pub arguments: serde_json::Value,
}

/// The correlated outcome of one invocation attempt: the identifier of the
/// request it answers, and the tool's result as JSON text.
#[derive(Debug)]
pub struct CallResponse {
    pub call_id: String,
    pub content: String,
}

/// One registered tool: the name it was keyed by at registration time, and
/// its type-erased handler.
struct RegistryEntry<H> {
    name: String,
    handler: H,
}

/// A registry of tools: a mapping from tool name (unique key) to one
/// type-erased handler. At most one handler per name; registering a second
/// handler under an existing name replaces the first.
///
/// The registry is viewed as a `Map` from the name's character sequence to
/// the handler, and every operation's contract is phrased over that map.
pub struct ToolRegistry<H> {
    entries: Vec<RegistryEntry<H>>,
}

/// The map that a sequence of entries denotes, later entries winning on a
/// shared name.
spec fn entries_map<H>(s: Seq<RegistryEntry<H>>) -> Map<Seq<char>, H>
    decreases s.len(),
{
    if s.len() == 0 {
        Map::empty()
    } else {
        entries_map(s.drop_last()).insert(s.last().name@, s.last().handler)
    }
}

/// A name stands in the denoted map exactly when some entry bears it.
proof fn lemma_entries_map_dom<H>(s: Seq<RegistryEntry<H>>)
    ensures
        forall|n: Seq<char>|
            #[trigger] entries_map(s).dom().contains(n) <==> exists|i: int|
                0 <= i < s.len() && s[i].name@ == n,
    decreases s.len(),
{
    if s.len() > 0 {
        lemma_entries_map_dom(s.drop_last());
        assert forall|n: Seq<char>| #[trigger]
            entries_map(s).dom().contains(n) implies exists|i: int|
            0 <= i < s.len() && s[i].name@ == n by {
            if n == s.last().name@ {
                assert(s[s.len() - 1].name@ == n);
            } else {
                assert(entries_map(s.drop_last()).dom().contains(n));
                let i = choose|i: int| 0 <= i < s.drop_last().len() && s.drop_last()[i].name@ == n;
                assert(s.drop_last()[i] == s[i]);
                assert(s[i].name@ == n);
            }
        }
        assert forall|n: Seq<char>|
            (exists|i: int| 0 <= i < s.len() && s[i].name@ == n) implies #[trigger]
            entries_map(s).dom().contains(n) by {
            let i = choose|i: int| 0 <= i < s.len() && s[i].name@ == n;
            if i < s.len() - 1 {
                assert(s.drop_last()[i].name@ == n);
                assert(entries_map(s.drop_last()).dom().contains(n));
            }
        }
    }
}

/// Whether the entries' names are pairwise distinct and each entry is keyed
/// by its own handler's name.
spec fn entries_wf<H: ToolHandler>(s: Seq<RegistryEntry<H>>) -> bool {
    &&& forall|i: int, j: int|
        0 <= i < j < s.len() ==> s[i].name@ != s[j].name@
    &&& forall|i: int| 0 <= i < s.len() ==> (#[trigger] s[i].name)@ == s[i].handler.spec_name()
}

/// With distinct names, each entry's handler is the denoted map's value at
/// that entry's name.
proof fn lemma_entries_map_index<H: ToolHandler>(s: Seq<RegistryEntry<H>>, i: int)
    requires
        entries_wf(s),
        0 <= i < s.len(),
    ensures
        entries_map(s)[s[i].name@] == s[i].handler,
    decreases s.len(),
{
    if i == s.len() - 1 {
    } else {
        assert(entries_wf(s.drop_last()));
        lemma_entries_map_index(s.drop_last(), i);
        assert(s.drop_last()[i] == s[i]);
        assert(s[i].name@ != s.last().name@);
    }
}

/// With distinct names, the denoted map has exactly one member per entry.
proof fn lemma_entries_map_len<H: ToolHandler>(s: Seq<RegistryEntry<H>>)
    requires
        entries_wf(s),
    ensures
        entries_map(s).dom().finite(),
        entries_map(s).len() == s.len(),
    decreases s.len(),
{
    if s.len() > 0 {
        assert(entries_wf(s.drop_last()));
        lemma_entries_map_len(s.drop_last());
        lemma_entries_map_dom(s.drop_last());
        assert(!entries_map(s.drop_last()).dom().contains(s.last().name@)) by {
            if exists|i: int| 0 <= i < s.drop_last().len() && s.drop_last()[i].name@ == s.last().name@ {
                let i = choose|i: int|
                    0 <= i < s.drop_last().len() && s.drop_last()[i].name@ == s.last().name@;
                assert(s[i].name@ == s[s.len() - 1].name@);
            }
        }
        vstd::set::axiom_set_insert_len(entries_map(s.drop_last()).dom(), s.last().name@);
    }
}

/// Removing the entry at a position takes exactly its name out of the denoted
/// map, and keeps the remaining entries well formed.
proof fn lemma_entries_map_remove<H: ToolHandler>(s: Seq<RegistryEntry<H>>, i: int)
    requires
        entries_wf(s),
        0 <= i < s.len(),
    ensures
        entries_wf(s.remove(i)),
        entries_map(s.remove(i)) == entries_map(s).remove(s[i].name@),
    decreases s.len(),
{
    s.remove_ensures(i);
    let n = s[i].name@;
    assert forall|a: int, b: int| 0 <= a < b < s.remove(i).len() implies s.remove(i)[a].name@
        != s.remove(i)[b].name@ by {
        let a0: int = if a < i { a } else { a + 1 };
        let b0: int = if b < i { b } else { b + 1 };
        assert(s.remove(i)[a] == s[a0]);
        assert(s.remove(i)[b] == s[b0]);
    }
    assert forall|a: int| 0 <= a < s.remove(i).len() implies (#[trigger] s.remove(i)[a].name)@ == s.remove(
        i,
    )[a].handler.spec_name() by {
        let a0: int = if a < i { a } else { a + 1 };
        assert(s.remove(i)[a] == s[a0]);
        assert(s[a0].name@ == s[a0].handler.spec_name());
    }
    if i == s.len() - 1 {
        assert(s.remove(i) =~= s.drop_last());
        lemma_entries_map_dom(s.drop_last());
        assert(!entries_map(s.drop_last()).dom().contains(n)) by {
            if exists|k: int| 0 <= k < s.drop_last().len() && s.drop_last()[k].name@ == n {
                let k = choose|k: int| 0 <= k < s.drop_last().len() && s.drop_last()[k].name@ == n;
                assert(s[k].name@ == s[s.len() - 1].name@);
            }
        }
        assert(entries_map(s).remove(n) =~= entries_map(s.drop_last()));
    } else {
        let dl = s.drop_last();
        assert(entries_wf(dl));
        assert(dl[i] == s[i]);
        lemma_entries_map_remove(dl, i);
        assert(s.remove(i).drop_last() =~= dl.remove(i));
        assert(s.remove(i).last() == s.last());
        assert(entries_map(s.remove(i)) == entries_map(dl.remove(i)).insert(
            s.last().name@,
            s.last().handler,
        ));
        assert(n != s.last().name@);
        assert(entries_map(s).remove(n) =~= entries_map(dl).remove(n).insert(
            s.last().name@,
            s.last().handler,
        ));
    }
}

/// The map that registering a sequence of tools in order leaves behind,
/// starting from `m`: each tool is keyed by its own name, and a later tool
/// overwrites an earlier one sharing a name.
pub open spec fn register_fold<H: ToolHandler>(m: Map<Seq<char>, H>, s: Seq<H>) -> Map<
    Seq<char>,
    H,
>
    decreases s.len(),
{
    if s.len() == 0 {
        m
    } else {
        register_fold(m, s.drop_last()).insert(s.last().spec_name(), s.last())
    }
}

impl<H> View for ToolRegistry<H> {
    type V = Map<Seq<char>, H>;

    closed spec fn view(&self) -> Map<Seq<char>, H> {
        entries_map(self.entries@)
    }
}

impl<H: ToolHandler> ToolRegistry<H> {
    /// The registry's structural invariant: one entry per name, each keyed by
    /// its handler's own (constant) name. Constructors establish it and every
    /// operation preserves it.
    pub closed spec fn wf(&self) -> bool {
        entries_wf(self.entries@)
    }

    /// The view of a well-formed registry is a finite map, so callers may do
    /// cardinality arithmetic on it.
    pub proof fn lemma_dom_finite(&self)
        requires
            self.wf(),
        ensures
            self@.dom().finite(),
    {
        lemma_entries_map_len(self.entries@);
    }

    /// Create a new empty tool registry.
    pub fn new() -> (r: Self)
        ensures
            r.wf(),
            r@ == Map::<Seq<char>, H>::empty(),
    {
        ToolRegistry { entries: Vec::new() }
    }

    /// The index of the entry bearing the given name, if any.
    fn find_index(&self, key: &String) -> (r: Option<usize>)
        ensures
            match r {
                Some(i) => i < self.entries@.len() && self.entries@[i as int].name@ == key@,
                None => forall|i: int|
                    0 <= i < self.entries@.len() ==> (#[trigger] self.entries@[i].name)@ != key@,
            },
    {
        let n = self.entries.len();
        let mut i: usize = 0;
        while i < n
            invariant
                n == self.entries@.len(),
                i <= n,
                forall|k: int| 0 <= k < i ==> (#[trigger] self.entries@[k].name)@ != key@,
            decreases n - i,
        {
            if self.entries[i].name == *key {
                return Some(i);
            }
            i += 1;
        }
        None
    }

    /// Check if a tool with the given name is registered.
    pub fn has_tool(&self, name: &str) -> (r: bool)
        ensures
            r == self@.dom().contains(name@),
    {
        let key = String::from_str(name);
        proof {
            lemma_entries_map_dom(self.entries@);
        }
        match self.find_index(&key) {
            Some(_) => true,
            None => false,
        }
    }

    /// Get the number of registered tools.
    pub fn len(&self) -> (r: usize)
        requires
            self.wf(),
        ensures
            r == self@.len(),
    {
        proof {
            lemma_entries_map_len(self.entries@);
        }
        self.entries.len()
    }

    /// Check if the registry is empty.
    pub fn is_empty(&self) -> (r: bool)
        requires
            self.wf(),
        ensures
            r == (self@.len() == 0),
    {
        proof {
            lemma_entries_map_len(self.entries@);
        }
        self.entries.len() == 0
    }

    /// Remove the entry keyed by `key`, reporting whether one existed.
    fn remove_entry(&mut self, key: &String) -> (r: bool)
        requires
            old(self).wf(),
        ensures
            final(self).wf(),
            final(self)@ == old(self)@.remove(key@),
            r == old(self)@.dom().contains(key@),
    {
        proof {
            lemma_entries_map_dom(self.entries@);
        }
        match self.find_index(key) {
            Some(i) => {
                proof {
                    lemma_entries_map_remove(self.entries@, i as int);
                }
                let _ = self.entries.remove(i);
                true
            },
            None => {
                proof {
                    assert(old(self)@.remove(key@) =~= old(self)@);
                }
                false
            },
        }
    }

    /// Remove a tool from the registry.
    ///
    /// Returns `true` if the tool was found and removed, `false` otherwise.
    pub fn remove_tool(&mut self, name: &str) -> (r: bool)
        requires
            old(self).wf(),
        ensures
            final(self).wf(),
            final(self)@ == old(self)@.remove(name@),
            r == old(self)@.dom().contains(name@),
    {
        let key = String::from_str(name);
        self.remove_entry(&key)
    }

    /// Register a tool in the registry, keyed by the name the tool reports.
    /// An existing entry of the same name is overwritten.
    pub fn register_function(&mut self, tool: H)
        requires
            old(self).wf(),
        ensures
            final(self).wf(),
            final(self)@ == old(self)@.insert(tool.spec_name(), tool),
    {
        let name = tool.name();
        let _ = self.remove_entry(&name);
        proof {
            lemma_entries_map_dom(self.entries@);
        }
        let ghost mid = self.entries@;
        self.entries.push(RegistryEntry { name, handler: tool });
        proof {
            assert(self.entries@.drop_last() =~= mid);
            assert(self.entries@.drop_last() == mid);
            assert(entries_map(self.entries@) == entries_map(mid).insert(
                tool.spec_name(),
                tool,
            ));
            assert(old(self)@.remove(tool.spec_name()).insert(tool.spec_name(), tool)
                =~= old(self)@.insert(tool.spec_name(), tool));
            assert forall|a: int, b: int|
                0 <= a < b < self.entries@.len() implies self.entries@[a].name@
                != self.entries@[b].name@ by {
                if b == self.entries@.len() - 1 {
                    assert(entries_map(mid) == old(self)@.remove(tool.spec_name()));
                    assert(!entries_map(mid).dom().contains(tool.spec_name()));
                    assert(self.entries@[a] == mid[a]);
                    assert(mid[a].name@ != tool.spec_name());
                }
            }
        }
    }

    /// Register several tools at once, in the given order: a later tool
    /// overwrites an earlier one sharing a name.
    pub fn register_functions(&mut self, tools: Vec<H>)
        requires
            old(self).wf(),
        ensures
            final(self).wf(),
            final(self)@ == register_fold(old(self)@, tools@),
    {
        let ghost s0 = tools@;
        let mut rest = tools;
        let ghost mut j: int = 0;
        while rest.len() > 0
            invariant
                self.wf(),
                0 <= j <= s0.len(),
                j + rest@.len() == s0.len(),
                rest@ == s0.skip(j),
                self@ == register_fold(old(self)@, s0.take(j)),
            decreases rest@.len(),
        {
            let ghost rest0 = rest@;
            let t = rest.remove(0);
            proof {
                rest0.remove_ensures(0);
                assert(t == rest0[0]);
                assert(s0.skip(j)[0] == s0[j]);
                assert(rest@ =~= s0.skip(j + 1));
            }
            self.register_function(t);
            proof {
                assert(s0.take(j + 1).drop_last() =~= s0.take(j));
                assert(s0.take(j + 1).last() == s0[j]);
            }
            proof {
                j = j + 1;
            }
        }
        proof {
            assert(s0.take(s0.len() as int) =~= s0);
        }
    }

    /// Merge another registry into this one: every entry of `other` moves in,
    /// and on a name collision the incoming entry wins. `other` is consumed.
    pub fn merge(&mut self, other: ToolRegistry<H>)
        requires
            old(self).wf(),
            other.wf(),
        ensures
            final(self).wf(),
            final(self)@ == old(self)@.union_prefer_right(other@),
    {
        let ghost s0 = other.entries@;
        let mut rest = other.entries;
        let ghost mut j: int = 0;
        while rest.len() > 0
            invariant
                self.wf(),
                entries_wf(s0),
                0 <= j <= s0.len(),
                j + rest@.len() == s0.len(),
                rest@ == s0.skip(j),
                self@ == old(self)@.union_prefer_right(entries_map(s0.take(j))),
            decreases rest@.len(),
        {
            let ghost rest0 = rest@;
            let e = rest.remove(0);
            proof {
                rest0.remove_ensures(0);
                assert(e == rest0[0]);
                assert(s0.skip(j)[0] == s0[j]);
                assert(rest@ =~= s0.skip(j + 1));
                assert(s0[j].name@ == s0[j].handler.spec_name());
            }
            self.register_function(e.handler);
            proof {
                assert(s0.take(j + 1).drop_last() =~= s0.take(j));
                assert(s0.take(j + 1).last() == s0[j]);
                assert(entries_map(s0.take(j + 1)) == entries_map(
                    s0.take(j),
                ).insert(s0[j].name@, s0[j].handler));
                assert(old(self)@.union_prefer_right(entries_map(s0.take(j + 1)))
                    =~= old(self)@.union_prefer_right(entries_map(s0.take(j))).insert(
                    s0[j].name@,
                    s0[j].handler,
                ));
            }
            proof {
                j = j + 1;
            }
        }
        proof {
            assert(s0.take(s0.len() as int) =~= s0);
        }
    }

    /// Get the names of all registered tools: one name per registered tool,
    /// in no promised order.
    pub fn tool_names(&self) -> (r: Vec<String>)
        requires
            self.wf(),
        ensures
            r@.len() == self@.len(),
            forall|i: int| 0 <= i < r@.len() ==> self@.dom().contains((#[trigger] r@[i])@),
            forall|i: int, j: int| 0 <= i < j < r@.len() ==> r@[i]@ != r@[j]@,
            forall|n: Seq<char>|
                #[trigger] self@.dom().contains(n) ==> exists|i: int|
                    0 <= i < r@.len() && r@[i]@ == n,
    {
        let mut r: Vec<String> = Vec::new();
        let n = self.entries.len();
        let mut i: usize = 0;
        while i < n
            invariant
                n == self.entries@.len(),
                i <= n,
                r@.len() == i,
                forall|k: int| 0 <= k < i ==> (#[trigger] r@[k])@ == self.entries@[k].name@,
            decreases n - i,
        {
            let name = self.entries[i].name.clone();
            r.push(name);
            i += 1;
        }
        proof {
            lemma_entries_map_dom(self.entries@);
            lemma_entries_map_len(self.entries@);
            assert forall|k: int| 0 <= k < r@.len() implies self@.dom().contains(
                (#[trigger] r@[k])@,
            ) by {
                assert(self.entries@[k].name@ == r@[k]@);
            }
            assert forall|m: Seq<char>| #[trigger]
                self@.dom().contains(m) implies exists|k: int|
                0 <= k < r@.len() && r@[k]@ == m by {
                let k = choose|k: int| 0 <= k < self.entries@.len() && self.entries@[k].name@ == m;
                assert(r@[k]@ == m);
            }
        }
        r
    }

    /// Get one descriptor per registered tool: its name, its description and
    /// its parameter schema, in no promised order.
    pub fn get_tools(&self) -> (r: Vec<ToolDescriptor>)
        requires
            self.wf(),
        ensures
            r@.len() == self@.len(),
            forall|i: int|
                0 <= i < r@.len() ==> self@.dom().contains((#[trigger] r@[i]).name@)
                    && r@[i].description@ == self@[r@[i].name@].spec_description()
                    && r@[i].schema == self@[r@[i].name@].spec_schema(),
            forall|i: int, j: int| 0 <= i < j < r@.len() ==> r@[i].name@ != r@[j].name@,
            forall|n: Seq<char>|
                #[trigger] self@.dom().contains(n) ==> exists|i: int|
                    0 <= i < r@.len() && r@[i].name@ == n,
    {
        let mut r: Vec<ToolDescriptor> = Vec::new();
        let n = self.entries.len();
        let mut i: usize = 0;
        while i < n
            invariant
                self.wf(),
                n == self.entries@.len(),
                i <= n,
                r@.len() == i,
                forall|k: int|
                    0 <= k < i ==> (#[trigger] r@[k]).name@ == self.entries@[k].name@
                        && r@[k].description@ == self.entries@[k].handler.spec_description()
                        && r@[k].schema == self.entries@[k].handler.spec_schema(),
            decreases n - i,
        {
            let h = &self.entries[i].handler;
            let d = ToolDescriptor { name: h.name(), description: h.description(), schema: h.schema() };
            proof {
                assert(self.entries@[i as int].name@ == self.entries@[
                    i as int
                ].handler.spec_name());
            }
            r.push(d);
            i += 1;
        }
        proof {
            lemma_entries_map_dom(self.entries@);
            lemma_entries_map_len(self.entries@);
            assert forall|k: int|
                0 <= k < r@.len() implies self@.dom().contains((#[trigger] r@[k]).name@)
                && r@[k].description@ == self@[r@[k].name@].spec_description() && r@[k].schema
                == self@[r@[k].name@].spec_schema() by {
                assert(self.entries@[k].name@ == r@[k].name@);
                lemma_entries_map_index(self.entries@, k);
            }
            assert forall|m: Seq<char>| #[trigger]
                self@.dom().contains(m) implies exists|k: int|
                0 <= k < r@.len() && r@[k].name@ == m by {
                let k = choose|k: int| 0 <= k < self.entries@.len() && self.entries@[k].name@ == m;
                assert(r@[k].name@ == m);
            }
        }
        r
    }

    /// Wrap a JSON document a handler returned into the response for the
    /// request identified by `call_id`: on success the response echoes
    /// `call_id` and its content is exactly the document's JSON text; the
    /// only failure is the (practically unreachable) serialization failure,
    /// surfaced as `Encode`.
    pub fn encode_response(call_id: &String, v: &serde_json::Value) -> (r: Result<
        CallResponse,
        DispatchError,
    >)
        ensures
            r matches Ok(resp) ==> resp.call_id@ == call_id@ && resp.content@ == json_text_of(
                *v,
            ),
            r matches Err(e) ==> (e matches DispatchError::Invocation(i) && i matches
                InvocationError::Encode(_)),
    {
        match value_to_text(v) {
            Ok(content) => Ok(CallResponse { call_id: call_id.clone(), content }),
            Err(e) => Err(
                DispatchError::Invocation(InvocationError::Encode(json_error_text(&e))),
            ),
        }
    }

    /// Execute one call: look up the requested tool by name and invoke it
    /// with the request's JSON arguments.
    ///
    /// An unknown name fails with `NotFound` carrying that exact name, and
    /// only an unknown name does. Arguments the tool's parameter type rejects
    /// fail with `Decode` carrying the decode diagnostic. A success echoes
    /// the request's `call_id` and carries the tool's result as JSON text.
    pub fn execute_call(&self, call: &CallRequest) -> (r: Result<CallResponse, DispatchError>)
        requires
            self.wf(),
        ensures
            !self@.dom().contains(call.fn_name@) ==> (r matches Err(DispatchError::NotFound(s))
                && s@ == call.fn_name@),
            self@.dom().contains(call.fn_name@) ==> !(r matches Err(DispatchError::NotFound(_))),
            self@.dom().contains(call.fn_name@) ==> (match self@[call.fn_name@].spec_decode_err(
                call.arguments,
            ) {
                Some(m) => r matches Err(
                    DispatchError::Invocation(InvocationError::Decode(s)),
                ) && s@ == m,
                None => true,
            }),
            r matches Err(DispatchError::Invocation(InvocationError::Decode(s)))
                ==> self@.dom().contains(call.fn_name@) && self@[
                call.fn_name@
            ].spec_decode_err(call.arguments) == Some(s@),
            r matches Ok(resp) ==> resp.call_id@ == call.call_id@ && self@.dom().contains(
                call.fn_name@,
            ) && self@[call.fn_name@].spec_decode_err(call.arguments) is None && (exists|
                v: serde_json::Value,
            |
                resp.content@ == json_text_of(v)),
    {
        proof {
            lemma_entries_map_dom(self.entries@);
        }
        match self.find_index(&call.fn_name) {
            None => Err(DispatchError::NotFound(call.fn_name.clone())),
            Some(i) => {
                proof {
                    lemma_entries_map_index(self.entries@, i as int);
                }
                match self.entries[i].handler.call_json(&call.arguments) {
                    Err(e) => Err(DispatchError::Invocation(e)),
                    Ok(v) => Self::encode_response(&call.call_id, &v),
                }
            },
        }
    }

    /// Execute a batch of calls, fail-fast: either every call succeeds and
    /// the responses come back in the order of their requests, each echoing
    /// its request's `call_id`, or the whole batch resolves to one error and
    /// no responses are returned. A batch holding a request for an unknown
    /// name never succeeds.
    pub fn execute_calls(&self, calls: &Vec<CallRequest>) -> (r: Result<
        Vec<CallResponse>,
        DispatchError,
    >)
        requires
            self.wf(),
        ensures
            r matches Ok(rs) ==> rs@.len() == calls@.len() && forall|i: int|
                0 <= i < calls@.len() ==> (#[trigger] rs@[i]).call_id@ == calls@[i].call_id@
                    && self@.dom().contains(calls@[i].fn_name@) && self@[
                    calls@[i].fn_name@
                ].spec_decode_err(calls@[i].arguments) is None,
            calls@.len() == 0 ==> (r matches Ok(rs) && rs@.len() == 0),
            (exists|i: int|
                0 <= i < calls@.len() && !self@.dom().contains(
                    (#[trigger] calls@[i]).fn_name@,
                )) ==> r matches Err(_),
            r matches Err(e) ==> exists|i: int|
                #![trigger calls@[i]]
                0 <= i < calls@.len() && (forall|j: int|
                    0 <= j < i ==> self@.dom().contains((#[trigger] calls@[j]).fn_name@)
                        && self@[calls@[j].fn_name@].spec_decode_err(
                        calls@[j].arguments,
                    ) is None) && (match e {
                    DispatchError::NotFound(s) => calls@[i].fn_name@ == s@
                        && !self@.dom().contains(s@),
                    DispatchError::Invocation(inv) => match inv {
                        InvocationError::Decode(s) => self@.dom().contains(calls@[i].fn_name@)
                            && self@[calls@[i].fn_name@].spec_decode_err(calls@[i].arguments)
                            == Some(s@),
                        _ => self@.dom().contains(calls@[i].fn_name@),
                    },
                }),
    {
        let mut rs: Vec<CallResponse> = Vec::new();
        let n = calls.len();
        let mut i: usize = 0;
        while i < n
            invariant
                self.wf(),
                n == calls@.len(),
                i <= n,
                rs@.len() == i,
                forall|k: int|
                    0 <= k < i ==> (#[trigger] rs@[k]).call_id@ == calls@[k].call_id@
                        && self@.dom().contains(calls@[k].fn_name@) && self@[
                        calls@[k].fn_name@
                    ].spec_decode_err(calls@[k].arguments) is None,
            decreases n - i,
        {
            let req: &CallRequest = &calls[i];
            proof {
                assert(*req == calls@[i as int]);
            }
            match self.execute_call(req) {
                Ok(resp) => {
                    let ghost rs0 = rs@;
                    rs.push(resp);
                    proof {
                        assert forall|k: int|
                            0 <= k < i + 1 implies ((#[trigger] rs@[k]).call_id@
                            == calls@[k].call_id@ && self@.dom().contains(calls@[k].fn_name@)
                            && self@[calls@[k].fn_name@].spec_decode_err(
                            calls@[k].arguments,
                        ) is None) by {
                            if k < i {
                                assert(rs@[k] == rs0[k]);
                                assert(rs0[k].call_id@ == calls@[k].call_id@);
                            } else {
                                assert(rs@[k] == resp);
                            }
                        }
                    }
                },
                Err(e) => {
                    proof {
                        assert forall|j: int|
                            0 <= j < i implies self@.dom().contains(
                            (#[trigger] calls@[j]).fn_name@,
                        ) && self@[calls@[j].fn_name@].spec_decode_err(
                            calls@[j].arguments,
                        ) is None by {
                            assert(rs@[j].call_id@ == calls@[j].call_id@);
                        }
                        assert(calls@[i as int] == *req);
                    }
                    return Err(e);
                },
            }
            i += 1;
        }
        proof {
            assert forall|k: int| 0 <= k < calls@.len() implies self@.dom().contains(
                (#[trigger] calls@[k]).fn_name@,
            ) by {
                assert(rs@[k].call_id@ == calls@[k].call_id@);
            }
        }
        Ok(rs)
    }

    /// Clear all tools from the registry.
    pub fn clear(&mut self)
        ensures
            final(self).wf(),
            final(self)@ == Map::<Seq<char>, H>::empty(),
    {
        self.entries.clear();
    }
}

impl<H: ToolHandler> Default for ToolRegistry<H> {
    /// An empty registry.
    fn default() -> (r: Self)
        ensures
            r.wf(),
            r@ == Map::<Seq<char>, H>::empty(),
    {
        ToolRegistry::new()
    }
}

/// Law: registering a tool under a name makes a lookup of that name succeed,
/// and removing the name takes it out again, so a second removal of the same
/// name finds nothing. `register_function`, `has_tool` and `remove_tool`
/// phrase their contracts over exactly these operations on the registry's
/// view.
pub proof fn lemma_register_then_remove<H>(m: Map<Seq<char>, H>, n: Seq<char>, h: H)
    ensures
        m.insert(n, h).dom().contains(n),
        m.insert(n, h).remove(n).dom().contains(n) == false,
{
}

/// Law: a merge prefers the incoming registry's entry on a name collision:
/// every name present in the incoming registry's view is bound, after the
/// merge, to the incoming registry's handler for it. `merge` ensures the
/// merged view is exactly this union.
pub proof fn lemma_merge_prefers_incoming<H>(
    a: Map<Seq<char>, H>,
    b: Map<Seq<char>, H>,
    n: Seq<char>,
)
    requires
        b.dom().contains(n),
    ensures
        a.union_prefer_right(b).dom().contains(n),
        a.union_prefer_right(b)[n] == b[n],
{
}

} // verus!
