//! Tool registry: the set of tool names a TOOLS block is checked against,
//! plus the always-trusted `mcp__` prefix rule.

use vstd::prelude::*;
use crate::text::{
    chars_of, chars_to_string, eq_str, find_char_from, lemma_find, push_deep, spec_find,
    spec_starts_with, spec_trim, starts_with_str, trim_chars,
};

verus! {

/// The default tool names of the registry, spanning code, vector, graph,
/// memory, system, file, and web categories.
pub open spec fn default_tool_names() -> Seq<Seq<char>> {
    seq![
        "code_search"@,
        "code_edit"@,
        "code_read"@,
        "code_write"@,
        "vector_search"@,
        "vector_store"@,
        "vector_delete"@,
        "graph_query"@,
        "graph_store"@,
        "graph_delete"@,
        "memory.query"@,
        "memory.store"@,
        "memory.delete"@,
        "memory.consolidate"@,
        "unix_action"@,
        "bash"@,
        "shell"@,
        "read_file"@,
        "write_file"@,
        "edit_file"@,
        "glob"@,
        "grep"@,
        "web_fetch"@,
        "web_search"@,
        "mcp_tool"@,
    ]
}

/// The default valid tool names.
pub fn valid_tools() -> (r: Vec<&'static str>)
    ensures
        r.deep_view() == default_tool_names(),
{
    let mut v: Vec<&'static str> = Vec::new();
    v.push("code_search");
    v.push("code_edit");
    v.push("code_read");
    v.push("code_write");
    v.push("vector_search");
    v.push("vector_store");
    v.push("vector_delete");
    v.push("graph_query");
    v.push("graph_store");
    v.push("graph_delete");
    v.push("memory.query");
    v.push("memory.store");
    v.push("memory.delete");
    v.push("memory.consolidate");
    v.push("unix_action");
    v.push("bash");
    v.push("shell");
    v.push("read_file");
    v.push("write_file");
    v.push("edit_file");
    v.push("glob");
    v.push("grep");
    v.push("web_fetch");
    v.push("web_search");
    v.push("mcp_tool");
    proof {
        assert(v.deep_view() =~= default_tool_names());
    }
    v
}

/// Mathematical model of a [`ToolRegistry`].
pub struct RegV {
    pub tools: Seq<Seq<char>>,
    pub allow_unknown: bool,
}

/// Whether a name is among the registered tools.
pub open spec fn spec_has_tool(tools: Seq<Seq<char>>, name: Seq<char>) -> bool {
    exists|i: int| 0 <= i < tools.len() && tools[i] == name
}

/// Whether the registry accepts a name: permissive registries accept
/// everything, registered names are accepted, and the `mcp__` prefix is an
/// unconditionally trusted namespace.
pub open spec fn spec_is_valid(reg: RegV, name: Seq<char>) -> bool {
    reg.allow_unknown || spec_has_tool(reg.tools, name) || spec_starts_with(name, "mcp__"@)
}

/// A registered tool set plus a flag accepting unknown tools.
#[derive(Debug, Clone)]
pub struct ToolRegistry {
    tools: Vec<String>,
    allow_unknown: bool,
}

impl View for ToolRegistry {
    type V = RegV;

    closed spec fn view(&self) -> RegV {
        RegV { tools: self.tools.deep_view(), allow_unknown: self.allow_unknown }
    }
}

/// One name added to a tool set: appended unless already present.
pub open spec fn spec_add_one(tools: Seq<Seq<char>>, name: Seq<char>) -> Seq<Seq<char>> {
    if spec_has_tool(tools, name) {
        tools
    } else {
        tools.push(name)
    }
}

/// Many names added to a tool set, in order.
pub open spec fn spec_add_all(tools: Seq<Seq<char>>, names: Seq<Seq<char>>) -> Seq<Seq<char>>
    decreases names.len(),
{
    if names.len() == 0 {
        tools
    } else {
        spec_add_all(spec_add_one(tools, names[0]), names.drop_first())
    }
}

impl ToolRegistry {
    /// Create a new registry with the default tools.
    pub fn new() -> (r: ToolRegistry)
        ensures
            r@.tools == default_tool_names(),
            r@.allow_unknown == false,
    {
        let names = valid_tools();
        let mut tools: Vec<String> = Vec::new();
        let mut i: usize = 0;
        while i < names.len()
            invariant
                i <= names@.len(),
                names.deep_view().len() == names@.len(),
                forall|k: int| 0 <= k < names@.len() ==> names.deep_view()[k] == #[trigger] names@[k]@,
                tools.deep_view().len() == i,
                forall|k: int| 0 <= k < i ==> tools.deep_view()[k] == names.deep_view()[k],
            decreases names@.len() - i,
        {
            push_deep(&mut tools, String::from_str(names[i]));
            i = i + 1;
        }
        proof {
            assert(tools.deep_view() =~= names.deep_view());
        }
        ToolRegistry { tools, allow_unknown: false }
    }

    /// Create an empty registry; the `mcp__` prefix rule still applies.
    pub fn empty() -> (r: ToolRegistry)
        ensures
            r@.tools.len() == 0,
            r@.allow_unknown == false,
    {
        ToolRegistry { tools: Vec::new(), allow_unknown: false }
    }

    /// Create a permissive registry that accepts any tool name.
    pub fn permissive() -> (r: ToolRegistry)
        ensures
            r@.tools.len() == 0,
            r@.allow_unknown == true,
    {
        ToolRegistry { tools: Vec::new(), allow_unknown: true }
    }

    /// Whether a name is registered.
    fn has_tool(&self, name: &str) -> (r: bool)
        ensures
            r == spec_has_tool(self@.tools, name@),
    {
        let nv = chars_of(name);
        let n = self.tools.len();
        let mut i: usize = 0;
        while i < n
            invariant
                i <= n,
                n == self.tools@.len(),
                nv@ == name@,
                self@.tools.len() == n,
                forall|k: int| 0 <= k < n ==> self@.tools[k] == #[trigger] self.tools@[k]@,
                forall|k: int| 0 <= k < i ==> self@.tools[k] != name@,
            decreases n - i,
        {
            if eq_str(&nv, self.tools[i].as_str()) {
                proof {
                    assert(self@.tools[i as int] == name@);
                }
                return true;
            }
            i = i + 1;
        }
        false
    }

    /// Add a tool name to the registry.
    pub fn add_tool(&mut self, name: &str)
        ensures
            final(self)@.allow_unknown == old(self)@.allow_unknown,
            final(self)@.tools == spec_add_one(old(self)@.tools, name@),
    {
        if !self.has_tool(name) {
            push_deep(&mut self.tools, String::from_str(name));
        }
    }

    /// Add several tool names to the registry, in order.
    pub fn add_tools(&mut self, names: &Vec<&str>)
        ensures
            final(self)@.allow_unknown == old(self)@.allow_unknown,
            final(self)@.tools == spec_add_all(old(self)@.tools, names.deep_view()),
    {
        let n = names.len();
        let mut i: usize = 0;
        proof {
            assert(names.deep_view().skip(0) =~= names.deep_view());
        }
        while i < n
            invariant
                i <= n,
                n == names@.len(),
                names.deep_view().len() == n,
                forall|k: int| 0 <= k < n ==> names.deep_view()[k] == #[trigger] names@[k]@,
                self@.allow_unknown == old(self)@.allow_unknown,
                spec_add_all(old(self)@.tools, names.deep_view()) == spec_add_all(
                    self@.tools,
                    names.deep_view().skip(i as int),
                ),
            decreases n - i,
        {
            let ghost suf = names.deep_view().skip(i as int);
            proof {
                assert(suf[0] == names.deep_view()[i as int]);
                assert(suf.drop_first() =~= names.deep_view().skip(i + 1));
            }
            self.add_tool(names[i]);
            i = i + 1;
        }
        proof {
            assert(names.deep_view().skip(n as int) =~= Seq::<Seq<char>>::empty());
        }
    }

    /// Check whether a tool name is acceptable.
    pub fn is_valid(&self, name: &str) -> (r: bool)
        ensures
            r == spec_is_valid(self@, name@),
    {
        if self.allow_unknown {
            return true;
        }
        if self.has_tool(name) {
            return true;
        }
        let nv = chars_of(name);
        starts_with_str(&nv, "mcp__")
    }

    /// The message of [`ToolRegistry::validate`] for a rejected name.
    pub open spec fn spec_unknown_tool_msg(name: Seq<char>) -> Seq<char> {
        "Unknown tool '"@ + name + "' not in registry"@
    }

    /// Validate a tool name, returning an error message if invalid.
    pub fn validate(&self, name: &str) -> (r: Result<(), String>)
        ensures
            r is Ok <==> spec_is_valid(self@, name@),
            r matches Err(m) ==> m@ == Self::spec_unknown_tool_msg(name@),
    {
        if self.is_valid(name) {
            Ok(())
        } else {
            let msg = String::from_str("Unknown tool '").concat(name).concat(
                "' not in registry",
            );
            Err(msg)
        }
    }

    /// All registered tool names.
    pub fn tools(&self) -> (r: &Vec<String>)
        ensures
            r.deep_view() == self@.tools,
    {
        &self.tools
    }

    /// Set whether unknown tools are allowed.
    pub fn set_allow_unknown(&mut self, allow: bool)
        ensures
            final(self)@.tools == old(self)@.tools,
            final(self)@.allow_unknown == allow,
    {
        self.allow_unknown = allow;
    }
}

impl Default for ToolRegistry {
    /// The registry with the default tools.
    fn default() -> (r: ToolRegistry)
        ensures
            r@.tools == default_tool_names(),
            r@.allow_unknown == false,
    {
        ToolRegistry::new()
    }
}

/// The name part of a TOOLS line: everything before the first `'('`, failing
/// that the first space, failing that the first `'"'`, each re-trimmed; a
/// line with none of these delimiters is the trimmed line itself.
pub open spec fn spec_extract_tool_name(line: Seq<char>) -> Seq<char> {
    let t = spec_trim(line);
    if spec_find(t, '(') < t.len() {
        spec_trim(t.take(spec_find(t, '(')))
    } else if spec_find(t, ' ') < t.len() {
        spec_trim(t.take(spec_find(t, ' ')))
    } else if spec_find(t, '"') < t.len() {
        spec_trim(t.take(spec_find(t, '"')))
    } else {
        t
    }
}

/// Extract the tool name from a TOOLS block line, such as `name`,
/// `name(args)` or `name "quoted arg"`.
pub fn extract_tool_name(line: &str) -> (r: String)
    ensures
        r@ == spec_extract_tool_name(line@),
{
    let t = trim_chars(&chars_of(line));
    let delims = ['(', ' ', '"'];
    let mut d: usize = 0;
    while d < 3
        invariant
            d <= 3,
            t@ == spec_trim(line@),
            delims@ =~= seq!['(', ' ', '"'],
            forall|k: int| 0 <= k < d ==> spec_find(t@, delims@[k]) >= t@.len(),
        decreases 3 - d,
    {
        let c = delims[d];
        let j = find_char_from(&t, 0, c);
        proof {
            lemma_find(t@, c);
        }
        if j < t.len() {
            let mut head: Vec<char> = Vec::new();
            let mut i: usize = 0;
            while i < j
                invariant
                    i <= j,
                    j <= t@.len(),
                    head@ == t@.subrange(0, i as int),
                decreases j - i,
            {
                head.push(t[i]);
                i = i + 1;
                assert(head@ =~= t@.subrange(0, i as int));
            }
            proof {
                assert(t@.take(j as int) =~= t@.subrange(0, j as int));
            }
            let name = trim_chars(&head);
            proof {
                assert(spec_find(t@, '(') == spec_find(t@, delims@[0]));
                if d >= 1 {
                    assert(spec_find(t@, delims@[0]) >= t@.len());
                }
                if d >= 2 {
                    assert(spec_find(t@, delims@[1]) >= t@.len());
                }
            }
            return chars_to_string(&name);
        }
        d = d + 1;
    }
    proof {
        assert(spec_find(t@, delims@[0]) >= t@.len());
        assert(spec_find(t@, delims@[1]) >= t@.len());
        assert(spec_find(t@, delims@[2]) >= t@.len());
    }
    chars_to_string(&t)
}

} // verus!
