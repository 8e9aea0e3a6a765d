//! Policies: de-duplicated id lists, cache keys, the rows that record
//! policy versions and environment deployments, and policy families.

use vstd::prelude::*;
use vstd::string::StringExecFns;

verus! {

/// The ids in order of first occurrence, each once.
pub open spec fn first_occurrences(ids: Seq<Seq<char>>) -> Seq<Seq<char>>
    decreases ids.len(),
{
    if ids.len() == 0 {
        Seq::empty()
    } else {
        let rest = first_occurrences(ids.drop_last());
        if rest.contains(ids.last()) {
            rest
        } else {
            rest.push(ids.last())
        }
    }
}

/// The texts of a sequence of strings.
pub open spec fn texts(s: Seq<String>) -> Seq<Seq<char>> {
    s.map_values(|x: String| x@)
}

fn holds_text(v: &Vec<String>, x: &String) -> (r: bool)
    ensures
        r == texts(v@).contains(x@),
{
    let mut i: usize = 0;
    while i < v.len()
        invariant
            i <= v.len(),
            forall|k: int| 0 <= k < i ==> v@[k]@ != x@,
        decreases v.len() - i,
    {
        if v[i] == *x {
            assert(texts(v@)[i as int] == x@);
            return true;
        }
        i = i + 1;
    }
    proof {
        if texts(v@).contains(x@) {
            let k = choose|k: int| 0 <= k < texts(v@).len() && texts(v@)[k] == x@;
            assert(v@[k]@ == x@);
        }
    }
    false
}

/// The policy ids with repeats dropped, first occurrences kept in order.
pub fn unique_policy_ids(policy_ids: &Vec<String>) -> (r: Vec<String>)
    ensures
        texts(r@) == first_occurrences(texts(policy_ids@)),
{
    let mut ids: Vec<String> = Vec::new();
    let mut i: usize = 0;
    while i < policy_ids.len()
        invariant
            i <= policy_ids.len(),
            texts(ids@) == first_occurrences(texts(policy_ids@.take(i as int))),
        decreases policy_ids.len() - i,
    {
        let id = &policy_ids[i];
        proof {
            assert(texts(policy_ids@.take(i + 1)).drop_last() =~= texts(policy_ids@.take(i as int)));
            assert(texts(policy_ids@.take(i + 1)).last() == id@);
        }
        if !holds_text(&ids, id) {
            let ghost before = ids@;
            ids.push(id.clone());
            assert(texts(ids@) =~= texts(before).push(id@));
        }
        i = i + 1;
    }
    assert(policy_ids@.take(policy_ids.len() as int) =~= policy_ids@);
    ids
}

/// De-duplicated ids hold each id once, and exactly the ids given.
pub proof fn law_unique_policy_ids(ids: Seq<Seq<char>>)
    ensures
        first_occurrences(ids).no_duplicates(),
        forall|x: Seq<char>|
            #![trigger first_occurrences(ids).contains(x)]
            #![trigger ids.contains(x)]
            first_occurrences(ids).contains(x) <==> ids.contains(x),
    decreases ids.len(),
{
    if ids.len() > 0 {
        let init = ids.drop_last();
        let y = ids.last();
        law_unique_policy_ids(init);
        let rest = first_occurrences(init);
        assert forall|x: Seq<char>| first_occurrences(ids).contains(x) <==> ids.contains(x) by {
            if first_occurrences(ids).contains(x) {
                if rest.contains(x) {
                    assert(init.contains(x));
                    let k = choose|k: int| 0 <= k < init.len() && init[k] == x;
                    assert(ids[k] == x);
                } else {
                    assert(x == y);
                    assert(ids[ids.len() - 1] == x);
                }
            }
            if ids.contains(x) {
                let k = choose|k: int| 0 <= k < ids.len() && ids[k] == x;
                if k < ids.len() - 1 {
                    assert(init[k] == x);
                    assert(init.contains(x));
                    assert(rest.contains(x));
                    let m = choose|m: int| 0 <= m < rest.len() && rest[m] == x;
                    if !rest.contains(y) {
                        assert(rest.push(y)[m] == x);
                    }
                } else {
                    assert(x == y);
                    if !rest.contains(y) {
                        assert(rest.push(y)[rest.len() as int] == x);
                    }
                }
            }
        }
    }
}

/// The cache key of an entity in a workspace: the two ids joined by a NUL
/// character.
pub open spec fn cache_key_spec(workspace_id: Seq<char>, entity_id: Seq<char>) -> Seq<char> {
    workspace_id + seq!['\0'] + entity_id
}

/// The cache key of a policy or agent in a workspace.
pub fn cache_key(workspace_id: &str, entity_id: &str) -> (r: String)
    ensures
        r@ == cache_key_spec(workspace_id@, entity_id@),
{
    let mut k = workspace_id.to_owned();
    k.append("\0");
    k.append(entity_id);
    proof {
        reveal_strlit("\0");
    }
    k
}

/// Workspace ids hold no NUL, so distinct pairs of ids have distinct keys.
pub proof fn law_cache_key_injective(w1: Seq<char>, e1: Seq<char>, w2: Seq<char>, e2: Seq<char>)
    requires
        !w1.contains('\0'),
        !w2.contains('\0'),
        cache_key_spec(w1, e1) == cache_key_spec(w2, e2),
    ensures
        w1 == w2,
        e1 == e2,
{
    let k = cache_key_spec(w1, e1);
    let p1 = w1 + seq!['\0'];
    let p2 = w2 + seq!['\0'];
    assert(p1.len() == w1.len() + 1);
    assert(p2.len() == w2.len() + 1);
    assert(k == p1 + e1);
    assert(k == p2 + e2);
    if w1.len() < w2.len() {
        assert(k[w1.len() as int] == '\0');
        assert(w2[w1.len() as int] == k[w1.len() as int]);
        assert(w2.contains('\0'));
    } else if w2.len() < w1.len() {
        assert(k[w2.len() as int] == '\0');
        assert(w1[w2.len() as int] == k[w2.len() as int]);
        assert(w1.contains('\0'));
    } else {
        assert forall|i: int| 0 <= i < w1.len() implies w1[i] == w2[i] by {
            assert(k[i] == w1[i]);
            assert(cache_key_spec(w2, e2)[i] == w2[i]);
        }
        assert(w1 =~= w2);
        assert(e1.len() == e2.len());
        assert forall|i: int| 0 <= i < e1.len() implies e1[i] == e2[i] by {
            assert((p1 + e1)[p1.len() + i] == e1[i]);
            assert((p2 + e2)[p2.len() + i] == e2[i]);
        }
        assert(e1 =~= e2);
    }
}

/// A stored version of an entity.
#[derive(Debug, Clone, PartialEq, Eq)]
pub struct NewEntityVersion {
    pub workspace_id: String,
    pub entity_type: String,
    pub entity_id: String,
    pub version: i32,
    pub content: String,
}

/// The version row of a policy that already has `existing_versions`
/// stored: numbered one past them, holding the policy's YAML.
pub fn policy_version_row(
    workspace_id: &str,
    policy_id: &str,
    existing_versions: i64,
    policy_yaml: &str,
) -> (r: NewEntityVersion)
    requires
        0 <= existing_versions < i32::MAX,
    ensures
        r.workspace_id@ == workspace_id@,
        r.entity_type@ == "policy"@,
        r.entity_id@ == policy_id@,
        r.version == existing_versions + 1,
        r.content@ == policy_yaml@,
{
    let v: i64 = existing_versions + 1;
    NewEntityVersion {
        workspace_id: workspace_id.to_owned(),
        entity_type: "policy".to_owned(),
        entity_id: policy_id.to_owned(),
        version: v as i32,
        content: policy_yaml.to_owned(),
    }
}

/// A policy's deployment in an environment.
#[derive(Debug, Clone, PartialEq, Eq)]
pub struct NewPolicyEnvironmentDeployment {
    pub workspace_id: String,
    pub environment_id: String,
    pub policy_id: String,
    pub enabled: bool,
    pub deployed_version: Option<i32>,
}

} // verus!
