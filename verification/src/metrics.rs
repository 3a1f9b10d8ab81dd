//! What is counted about a turn.
use vstd::prelude::*;
use vstd::string::*;

verus! {

/// One increment of a counter, with the attributes that it is counted under.
#[derive(Debug, PartialEq, Eq)]
pub struct CounterPoint {
    pub value: u64,
    pub attributes: Vec<(String, String)>,
}

/// What the names and values of `attributes` say.
pub open spec fn attribute_views(attributes: Seq<(String, String)>) -> Seq<(Seq<char>, Seq<char>)> {
    attributes.map_values(|attribute: (String, String)| (attribute.0@, attribute.1@))
}

/// A truth value as an attribute.
pub open spec fn truth_text(truth: bool) -> Seq<char> {
    if truth {
        "true"@
    } else {
        "false"@
    }
}

/// Adds an attribute.
fn push_attribute(attributes: &mut Vec<(String, String)>, name: &str, value: &str)
    ensures
        attribute_views(final(attributes)@) == attribute_views(old(attributes)@).push(
            (name@, value@),
        ),
{
    attributes.push((name.to_owned(), value.to_owned()));
    proof {
        assert(attribute_views(attributes@) =~= attribute_views(old(attributes)@).push(
            (name@, value@),
        ));
    }
}

/// A truth value as an attribute.
fn truth_name(truth: bool) -> (text: &'static str)
    ensures
        text@ == truth_text(truth),
{
    if truth {
        "true"
    } else {
        "false"
    }
}

/// What a turn's network proxy is counted under.
pub open spec fn proxy_attributes(active: bool, name: Seq<char>, value: Seq<char>) -> Seq<
    (Seq<char>, Seq<char>),
> {
    seq![("active"@, truth_text(active)), (name, value)]
}

/// What a turn's use of memories is counted under.
pub open spec fn memory_attributes(feature: bool, config: bool, citations: bool) -> Seq<
    (Seq<char>, Seq<char>),
> {
    seq![
        ("read_allowed"@, truth_text(feature && config)),
        ("feature_enabled"@, truth_text(feature)),
        ("config_use_memories"@, truth_text(config)),
        ("has_citations"@, truth_text(citations)),
    ]
}

/// Counts a turn by whether a network proxy was active. `tmp_mem` is one more
/// attribute, by its name and value.
pub fn turn_network_proxy_metric(network_proxy_active: bool, tmp_mem: (&str, &str)) -> (point:
    CounterPoint)
    ensures
        point.value == 1,
        attribute_views(point.attributes@) == seq![
            ("active"@, truth_text(network_proxy_active)),
            (tmp_mem.0@, tmp_mem.1@),
        ],
        attribute_views(point.attributes@) == proxy_attributes(
            network_proxy_active,
            tmp_mem.0@,
            tmp_mem.1@,
        ),
{
    let mut attributes: Vec<(String, String)> = Vec::new();
    push_attribute(&mut attributes, "active", truth_name(network_proxy_active));
    push_attribute(&mut attributes, tmp_mem.0, tmp_mem.1);
    proof {
        assert(attribute_views(attributes@) =~= seq![
            ("active"@, truth_text(network_proxy_active)),
            (tmp_mem.0@, tmp_mem.1@),
        ]);
    }
    CounterPoint { value: 1, attributes }
}

/// Counts a turn by its use of memories. They may be read if both the feature
/// and the configuration allow it.
pub fn turn_memory_metric(feature_enabled: bool, config_enabled: bool, has_citations: bool) -> (point:
    CounterPoint)
    ensures
        point.value == 1,
        attribute_views(point.attributes@) == seq![
            ("read_allowed"@, truth_text(feature_enabled && config_enabled)),
            ("feature_enabled"@, truth_text(feature_enabled)),
            ("config_use_memories"@, truth_text(config_enabled)),
            ("has_citations"@, truth_text(has_citations)),
        ],
        attribute_views(point.attributes@) == memory_attributes(
            feature_enabled,
            config_enabled,
            has_citations,
        ),
{
    let mut attributes: Vec<(String, String)> = Vec::new();
    push_attribute(&mut attributes, "read_allowed", truth_name(feature_enabled && config_enabled));
    push_attribute(&mut attributes, "feature_enabled", truth_name(feature_enabled));
    push_attribute(&mut attributes, "config_use_memories", truth_name(config_enabled));
    push_attribute(&mut attributes, "has_citations", truth_name(has_citations));
    proof {
        assert(attribute_views(attributes@) =~= seq![
            ("read_allowed"@, truth_text(feature_enabled && config_enabled)),
            ("feature_enabled"@, truth_text(feature_enabled)),
            ("config_use_memories"@, truth_text(config_enabled)),
            ("has_citations"@, truth_text(has_citations)),
        ]);
    }
    CounterPoint { value: 1, attributes }
}

/// The names and values under which a turn's network proxy is counted, and the
/// names and values under which its use of memories is, tell the truth about
/// each of the inputs. Memories may be read only if both inputs allow it.
pub proof fn attributes_tell_the_inputs(
    active: bool,
    name: Seq<char>,
    value: Seq<char>,
    feature: bool,
    config: bool,
    citations: bool,
)
    ensures
        ({
            let proxy = proxy_attributes(active, name, value);
            let memory = memory_attributes(feature, config, citations);
            &&& proxy.len() == 2
            &&& proxy[0].0 == "active"@ && (proxy[0].1 == "true"@ <==> active)
            &&& proxy[0].1 == "true"@ || proxy[0].1 == "false"@
            &&& proxy[1] == (name, value)
            &&& memory.len() == 4
            &&& memory[0].0 == "read_allowed"@ && (memory[0].1 == "true"@ <==> feature && config)
            &&& memory[1].0 == "feature_enabled"@ && (memory[1].1 == "true"@ <==> feature)
            &&& memory[2].0 == "config_use_memories"@ && (memory[2].1 == "true"@ <==> config)
            &&& memory[3].0 == "has_citations"@ && (memory[3].1 == "true"@ <==> citations)
            &&& forall|i: int|
                0 <= i < 4 ==> (#[trigger] memory[i]).1 == "true"@ || memory[i].1 == "false"@
        }),
{
    reveal_strlit("true");
    reveal_strlit("false");
    assert("true"@.len() != "false"@.len());
}

/// The views of attributes are those of their names and values, one for one.
pub proof fn attribute_views_are_one_for_one(attributes: Seq<(String, String)>)
    ensures
        attribute_views(attributes).len() == attributes.len(),
        forall|i: int|
            0 <= i < attributes.len() ==> (#[trigger] attribute_views(attributes)[i]).0
                == attributes[i].0@ && attribute_views(attributes)[i].1 == attributes[i].1@,
{
}

} // verus!
