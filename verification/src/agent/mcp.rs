//! Tools that a Model Context Protocol server offers.
//!
//! A remote tool is an ordinary tool of the toolbelt, under a name that says
//! which server it comes from. It is gated as every other tool is, so a denied
//! call never becomes a request to the server.

use vstd::prelude::*;
use crate::security::patterns::PatternView;
use crate::text::{join, join_text};
use crate::types::{Failure, ToolSpec, ToolSpecView};
use crate::views::{lemma_views_push, opt_view, views};

verus! {

/// One tool of one server.
#[derive(Debug)]
pub struct McpTool {
    /// The name in the toolbelt.
    pub namespaced_name: String,
    /// The name at the server.
    pub remote_name: String,
    pub description: String,
}

/// The name of a server's tool in the toolbelt.
pub open spec fn namespaced(server: Seq<char>, tool: Seq<char>) -> Seq<char> {
    "mcp:"@ + server + ":"@ + tool
}

/// The texts among a result's blocks, in order.
pub open spec fn block_texts(blocks: Seq<Option<Seq<char>>>) -> Seq<Seq<char>>
    decreases blocks.len(),
{
    if blocks.len() == 0 {
        Seq::empty()
    } else {
        match blocks.last() {
            Some(t) => block_texts(blocks.drop_last()).push(t),
            None => block_texts(blocks.drop_last()),
        }
    }
}

/// The views of the blocks.
pub open spec fn block_views(blocks: Seq<Option<String>>) -> Seq<Option<Seq<char>>> {
    blocks.map_values(|b: Option<String>| opt_view(b))
}

/// What a server's answer comes to.
pub open spec fn mcp_output(
    name: Seq<char>,
    blocks: Seq<Option<Seq<char>>>,
    is_error: Option<bool>,
) -> Result<Seq<char>, Seq<char>> {
    let text = join(block_texts(blocks), "\n"@);
    if is_error == Some(true) {
        Err("mcp tool '"@ + name + "' returned an error: "@ + text)
    } else {
        Ok(text)
    }
}

impl McpTool {
    /// The toolbelt's side of a tool that a server listed.
    pub fn proxy(server_name: &str, remote_name: &str, description: Option<&str>) -> (r: Self)
        ensures
            r.namespaced_name@ == namespaced(server_name@, remote_name@),
            r.remote_name@ == remote_name@,
            r.description@ == (match description {
                Some(d) => d@,
                None => Seq::empty(),
            }),
    {
        let mut name = "mcp:".to_owned();
        name.append(server_name);
        name.append(":");
        name.append(remote_name);
        McpTool {
            namespaced_name: name,
            remote_name: remote_name.to_owned(),
            description: match description {
                Some(d) => d.to_owned(),
                None => String::new(),
            },
        }
    }

    /// How the tool is advertised.
    pub fn spec(&self) -> (r: ToolSpec)
        ensures
            r@ == (ToolSpecView { name: self.namespaced_name@, description: self.description@ }),
    {
        ToolSpec::new(&self.namespaced_name, &self.description)
    }

    /// What the server's answer comes to: the texts of its blocks, one per
    /// line, as an observation or as an error. A block that is no text is
    /// `None` here.
    pub fn output(&self, blocks: &Vec<Option<String>>, is_error: Option<bool>) -> (r: Result<
        String,
        Failure,
    >)
        ensures
            match r {
                Ok(s) => mcp_output(self.namespaced_name@, block_views(blocks@), is_error) == Ok::<
                    Seq<char>,
                    Seq<char>,
                >(s@),
                Err(e) => mcp_output(self.namespaced_name@, block_views(blocks@), is_error)
                    == Err::<Seq<char>, Seq<char>>(e@),
            },
    {
        let mut texts: Vec<String> = Vec::new();
        let ghost all = block_views(blocks@);
        assert(views(texts@) =~= block_texts(all.take(0)));
        for i in 0..blocks.len()
            invariant
                all == block_views(blocks@),
                views(texts@) == block_texts(all.take(i as int)),
        {
            broadcast use lemma_views_push;

            assert(all.take(i + 1).drop_last() =~= all.take(i as int));
            assert(all.take(i + 1).last() == opt_view(blocks[i as int]));
            if let Some(t) = &blocks[i] {
                texts.push(t.clone());
            }
        }
        assert(all.take(all.len() as int) =~= all);
        let text = join_text(&texts, "\n");
        if is_error.is_some() && is_error.unwrap() {
            let mut s = "mcp tool '".to_owned();
            s.append(&self.namespaced_name);
            s.append("' returned an error: ");
            s.append(&text);
            Err(Failure(s))
        } else {
            Ok(text)
        }
    }
}

// ---------------------------------------------------------------------------
// Laws
// ---------------------------------------------------------------------------

/// The pattern `mcp:<server>:*` covers every tool of that server.
pub proof fn law_a_server_can_be_scoped(server: Seq<char>, tool: Seq<char>)
    ensures
        PatternView::parse(namespaced(server, "*"@)).matches(namespaced(server, tool)),
{
    reveal_strlit("*");
    reveal_strlit("mcp:");
    reveal_strlit(":");
    let p = namespaced(server, "*"@);
    let head = "mcp:"@ + server + ":"@;
    assert(p.last() == '*');
    assert(p.drop_last() =~= head);
    assert(namespaced(server, tool).subrange(0, head.len() as int) =~= head);
}

/// The pattern `mcp:<server>:*` covers no tool of another server, where
/// neither server's name holds a colon.
pub proof fn law_a_scope_covers_one_server(a: Seq<char>, b: Seq<char>, tool: Seq<char>)
    requires
        a != b,
        !a.contains(':'),
        !b.contains(':'),
    ensures
        !PatternView::parse(namespaced(a, "*"@)).matches(namespaced(b, tool)),
{
    reveal_strlit("*");
    reveal_strlit("mcp:");
    reveal_strlit(":");
    let p = namespaced(a, "*"@);
    let head = "mcp:"@ + a + ":"@;
    let name = namespaced(b, tool);
    assert(p.last() == '*');
    assert(p.drop_last() =~= head);
    if head.is_prefix_of(name) {
        assert forall|i: int| 0 <= i < head.len() implies #[trigger] head[i] == name[i] by {
            assert(head[i] == name.subrange(0, head.len() as int)[i]);
        }
        let n = 4 + a.len() as int;
        assert(head[n] == ':');
        assert(name[4 + b.len() as int] == ':');
        if a.len() < b.len() {
            assert(name[n] == b[a.len() as int]);
            assert(b.contains(':'));
        } else if b.len() < a.len() {
            assert(head[4 + b.len() as int] == a[b.len() as int]);
            assert(a.contains(':'));
        } else {
            assert forall|i: int| 0 <= i < a.len() implies a[i] == b[i] by {
                assert(head[4 + i] == a[i]);
                assert(name[4 + i] == b[i]);
            }
            assert(a =~= b);
        }
    }
}

/// Distinct tools of one server have distinct names in the toolbelt.
pub proof fn law_tool_names_stay_distinct(server: Seq<char>, s: Seq<char>, t: Seq<char>)
    requires
        namespaced(server, s) == namespaced(server, t),
    ensures
        s == t,
{
    let head = "mcp:"@ + server + ":"@;
    assert(s =~= namespaced(server, s).skip(head.len() as int));
    assert(t =~= namespaced(server, t).skip(head.len() as int));
}

} // verus!
