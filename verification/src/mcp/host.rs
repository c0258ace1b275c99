//! Folding the tools of connected servers into the registry.
use vstd::prelude::*;

use crate::error::{Error, ErrorModel};
use crate::json::JsonModel;
use crate::mcp::rpc::{advertised, advertised_tool, full_name_of};
use crate::provider::types::{ToolSpec, ToolSpecModel};
use crate::text::{
    after_prefix, cat2, cat3, has_prefix, lemma_views_push, occurs_at, strip_prefix, views,
};
use crate::tools::{
    in_order, law_register, registered, tool_named, McpTool, McpToolModel, Tool, ToolModel,
    ToolRegistry,
};

verus! {

/// The name by which a server knows a tool: the full name without the prefix that
/// stands for the server.
pub open spec fn bare_name_of(server: Seq<char>, full: Seq<char>) -> Seq<char> {
    match after_prefix(full, "mcp__"@ + server + "__"@) {
        Some(bare) => bare,
        None => full,
    }
}

/// A tool of the server with the given number and name, as the registry holds it.
pub open spec fn server_tool(number: usize, server: Seq<char>, spec: ToolSpecModel) -> ToolModel {
    ToolModel::Mcp(
        McpToolModel {
            server: number,
            full_name: spec.name,
            bare_name: bare_name_of(server, spec.name),
            spec,
        },
    )
}

/// The tools with those of a server among them.
pub open spec fn with_server(
    s: Seq<ToolModel>,
    number: usize,
    server: Seq<char>,
    specs: Seq<ToolSpecModel>,
) -> Seq<ToolModel>
    decreases specs.len(),
{
    if specs.len() == 0 {
        s
    } else {
        registered(
            with_server(s, number, server, specs.drop_last()),
            server_tool(number, server, specs.last()),
        )
    }
}

/// Register the tools of a connected server.
pub fn register_server(
    reg: &mut ToolRegistry,
    number: usize,
    server: &str,
    specs: &Vec<ToolSpec>,
)
    ensures
        final(reg)@ == with_server(old(reg)@, number, server@, views(specs@)),
        in_order(old(reg)@) ==> in_order(final(reg)@),
{
    let prefix = cat3("mcp__", server, "__");
    let ghost start = reg@;
    let ghost all = views(specs@);
    let mut i: usize = 0;
    assert(all.take(0) =~= Seq::empty());
    while i < specs.len()
        invariant
            all == views(specs@),
            i <= specs@.len(),
            prefix@ == "mcp__"@ + server@ + "__"@,
            reg@ == with_server(start, number, server@, all.take(i as int)),
            in_order(start) ==> in_order(reg@),
        decreases specs@.len() - i,
    {
        assert(all.take(i + 1).drop_last() =~= all.take(i as int));
        assert(all.take(i + 1).last() == specs@[i as int]@);
        let spec = specs[i].clone();
        let full_name = spec.name.clone();
        let bare_name = match strip_prefix(full_name.as_str(), prefix.as_str()) {
            Some(bare) => bare,
            None => full_name.clone(),
        };
        reg.register(Tool::Mcp(McpTool { server: number, full_name, bare_name, spec }));
        i += 1;
    }
    assert(all.take(i as int) =~= all);
}

/// What came of connecting a configured server: the tools it advertises, or why it
/// could not be connected.
#[derive(Debug)]
pub struct Spawned {
    /// The name of the server.
    pub server: String,
    pub tools: Result<Vec<ToolSpec>, Error>,
}

/// The model of a [`Spawned`].
#[verifier::ext_equal]
pub struct SpawnedModel {
    pub server: Seq<char>,
    pub tools: Result<Seq<ToolSpecModel>, ErrorModel>,
}

impl View for Spawned {
    type V = SpawnedModel;

    open spec fn view(&self) -> SpawnedModel {
        SpawnedModel {
            server: self.server@,
            tools: match self.tools {
                Ok(specs) => Ok(views(specs@)),
                Err(e) => Err(e@),
            },
        }
    }
}

/// The model of an [`McpHost`] that has just started: the tools, the number of
/// servers that are connected, and the warnings.
#[verifier::ext_equal]
pub struct Started {
    pub tools: Seq<ToolModel>,
    pub servers: nat,
    pub warnings: Seq<Seq<char>>,
}

/// Servers are connected in order. A connected one gets the next number and has its
/// tools registered; a failing one is skipped with a warning.
pub open spec fn started(tools: Seq<ToolModel>, spawned: Seq<SpawnedModel>) -> Started
    decreases spawned.len(),
{
    if spawned.len() == 0 {
        Started { tools, servers: 0, warnings: Seq::empty() }
    } else {
        let before = started(tools, spawned.drop_last());
        match spawned.last().tools {
            Ok(specs) => Started {
                tools: with_server(
                    before.tools,
                    before.servers as usize,
                    spawned.last().server,
                    specs,
                ),
                servers: before.servers + 1,
                ..before
            },
            Err(e) => Started {
                warnings: before.warnings.push("warning: "@ + e.message()),
                ..before
            },
        }
    }
}

/// The connected servers of a session.
#[derive(Debug)]
pub struct McpHost {
    servers: usize,
    warnings: Vec<String>,
}

impl McpHost {
    /// The number of connected servers.
    pub closed spec fn servers(self) -> nat {
        self.servers as nat
    }

    /// The warnings about servers that could not be connected.
    pub closed spec fn warnings(self) -> Seq<Seq<char>> {
        views(self.warnings@)
    }

    /// Register the tools of every configured server, from what came of connecting
    /// each. A failing server is skipped with a warning rather than aborting startup.
    pub fn start(spawned: &Vec<Spawned>, reg: &mut ToolRegistry) -> (r: McpHost)
        ensures
            started(old(reg)@, views(spawned@)) == (Started {
                tools: final(reg)@,
                servers: r.servers(),
                warnings: r.warnings(),
            }),
            in_order(old(reg)@) ==> in_order(final(reg)@),
    {
        broadcast use lemma_views_push;

        let ghost start = reg@;
        let ghost all = views(spawned@);
        let mut servers: usize = 0;
        let mut warnings: Vec<String> = Vec::new();
        let mut i: usize = 0;
        assert(all.take(0) =~= Seq::empty());
        assert(views(warnings@) =~= Seq::empty());
        while i < spawned.len()
            invariant
                all == views(spawned@),
                i <= spawned@.len(),
                i <= spawned.len(),
                servers <= i,
                in_order(start) ==> in_order(reg@),
                started(start, all.take(i as int)) == (Started {
                    tools: reg@,
                    servers: servers as nat,
                    warnings: views(warnings@),
                }),
            decreases spawned@.len() - i,
        {
            broadcast use lemma_views_push;

            assert(all.take(i + 1).drop_last() =~= all.take(i as int));
            assert(all.take(i + 1).last() == all[i as int]);
            match &spawned[i].tools {
                Ok(specs) => {
                    register_server(reg, servers, spawned[i].server.as_str(), specs);
                    servers += 1;
                },
                Err(e) => {
                    warnings.push(cat2("warning: ", e.message()));
                },
            }
            i += 1;
        }
        assert(all.take(i as int) =~= all);
        McpHost { servers, warnings }
    }

    /// The number of connected servers.
    pub fn count(&self) -> (r: usize)
        ensures
            r == self.servers(),
    {
        self.servers
    }

    /// The warnings about servers that could not be connected, in order.
    pub fn warned(&self) -> (r: &Vec<String>)
        ensures
            views(r@) == self.warnings(),
    {
        &self.warnings
    }
}

/// A server is asked for a tool under the name that it advertised, whatever that name
/// and the server's own hold.
pub proof fn law_bare_name(server: Seq<char>, bare: Seq<char>)
    ensures
        bare_name_of(server, full_name_of(server, bare)) == bare,
{
    let prefix = "mcp__"@ + server + "__"@;
    let full = full_name_of(server, bare);
    assert(full =~= prefix + bare);
    assert(full.subrange(0, prefix.len() as int) =~= prefix);
    assert(occurs_at(full, prefix, 0));
    assert(full.skip(prefix.len() as int) =~= bare);
}

/// A tool that a server advertises is called under its own name.
pub proof fn law_called_as_advertised(number: usize, server: Seq<char>, t: JsonModel)
    ensures
        server_tool(number, server, advertised_tool(server, t)) == ToolModel::Mcp(
            McpToolModel {
                server: number,
                full_name: full_name_of(server, t.at("name"@).text_or_empty()),
                bare_name: t.at("name"@).text_or_empty(),
                spec: advertised_tool(server, t),
            },
        ),
{
    law_bare_name(server, t.at("name"@).text_or_empty());
}

/// All of these tools are offered under names of servers.
pub open spec fn are_namespaced(specs: Seq<ToolSpecModel>) -> bool {
    forall|i: int| 0 <= i < specs.len() ==> has_prefix((#[trigger] specs[i]).name, "mcp__"@)
}

proof fn lemma_server_shadows_nothing(
    s: Seq<ToolModel>,
    number: usize,
    server: Seq<char>,
    specs: Seq<ToolSpecModel>,
    name: Seq<char>,
)
    requires
        in_order(s),
        are_namespaced(specs),
        !has_prefix(name, "mcp__"@),
    ensures
        in_order(with_server(s, number, server, specs)),
        tool_named(with_server(s, number, server, specs), name) == tool_named(s, name),
    decreases specs.len(),
{
    if specs.len() > 0 {
        let rest = specs.drop_last();
        assert forall|i: int| 0 <= i < rest.len() implies has_prefix(
            (#[trigger] rest[i]).name,
            "mcp__"@,
        ) by {
            assert(rest[i] == specs[i]);
        }
        lemma_server_shadows_nothing(s, number, server, rest, name);
        assert(has_prefix(specs[specs.len() - 1].name, "mcp__"@));
        law_register(
            with_server(s, number, server, rest),
            server_tool(number, server, specs.last()),
            name,
        );
    }
}

/// The tools of servers never stand in for others: whatever the servers advertise, a
/// name outside their own space finds the tool that it found without them.
pub proof fn law_servers_shadow_nothing(
    tools: Seq<ToolModel>,
    spawned: Seq<SpawnedModel>,
    name: Seq<char>,
)
    requires
        in_order(tools),
        forall|i: int|
            0 <= i < spawned.len() ==> match (#[trigger] spawned[i]).tools {
                Ok(specs) => are_namespaced(specs),
                Err(_) => true,
            },
        !has_prefix(name, "mcp__"@),
    ensures
        in_order(started(tools, spawned).tools),
        tool_named(started(tools, spawned).tools, name) == tool_named(tools, name),
    decreases spawned.len(),
{
    if spawned.len() > 0 {
        let rest = spawned.drop_last();
        assert forall|i: int| 0 <= i < rest.len() implies match (#[trigger] rest[i]).tools {
            Ok(specs) => are_namespaced(specs),
            Err(_) => true,
        } by {
            assert(rest[i] == spawned[i]);
        }
        law_servers_shadow_nothing(tools, rest, name);
        let before = started(tools, rest);
        let last = spawned[spawned.len() - 1];
        if let Ok(specs) = last.tools {
            lemma_server_shadows_nothing(
                before.tools,
                before.servers as usize,
                last.server,
                specs,
                name,
            );
        }
    }
}

/// What a server advertises is offered under names of its own space.
pub proof fn law_advertised_is_namespaced(server: Seq<char>, result: JsonModel)
    ensures
        are_namespaced(advertised(server, result)),
{
    let specs = advertised(server, result);
    assert forall|i: int| 0 <= i < specs.len() implies has_prefix(
        (#[trigger] specs[i]).name,
        "mcp__"@,
    ) by {
        assert(specs[i].name.subrange(0, "mcp__"@.len() as int) =~= "mcp__"@);
    }
}

/// A failing server takes no other with it: the tools are those that the working
/// servers give without it.
pub proof fn law_failing_server_is_skipped(
    tools: Seq<ToolModel>,
    before: Seq<SpawnedModel>,
    failed: SpawnedModel,
    after: Seq<SpawnedModel>,
)
    requires
        failed.tools is Err,
    ensures
        started(tools, before + seq![failed] + after).tools == started(tools, before + after).tools,
        started(tools, before + seq![failed] + after).servers == started(
            tools,
            before + after,
        ).servers,
    decreases after.len(),
{
    let all = before + seq![failed] + after;
    let some = before + after;
    if after.len() == 0 {
        assert(all.drop_last() =~= before);
        assert(some =~= before);
        assert(all.last() == failed);
    } else {
        assert(all.drop_last() =~= before + seq![failed] + after.drop_last());
        assert(some.drop_last() =~= before + after.drop_last());
        law_failing_server_is_skipped(tools, before, failed, after.drop_last());
    }
}

} // verus!
