//! The serial-port choices offered to the operator.

use vstd::prelude::*;

verus! {

/// The ports of `detected` other than `configured`, each once, at its first
/// occurrence, in order.
pub open spec fn others(detected: Seq<Seq<char>>, configured: Seq<char>) -> Seq<Seq<char>>
    decreases detected.len(),
{
    if detected.len() == 0 {
        detected
    } else if detected.last() == configured || detected.drop_last().contains(detected.last()) {
        others(detected.drop_last(), configured)
    } else {
        others(detected.drop_last(), configured).push(detected.last())
    }
}

/// The views of a vector of strings.
pub open spec fn string_views(v: Seq<String>) -> Seq<Seq<char>> {
    v.map_values(|s: String| s@)
}

/// Whether `detected[i]` occurs before index `i`.
fn seen_before(detected: &Vec<String>, i: usize) -> (r: bool)
    requires
        i < detected@.len(),
    ensures
        r == string_views(detected@).take(i as int).contains(detected@[i as int]@),
{
    let ghost prefix = string_views(detected@).take(i as int);
    let mut j: usize = 0;
    while j < i
        invariant
            i < detected@.len(),
            j <= i,
            prefix == string_views(detected@).take(i as int),
            forall|k: int| 0 <= k < j ==> prefix[k] != detected@[i as int]@,
        decreases i - j,
    {
        if detected[j] == detected[i] {
            assert(prefix[j as int] == detected@[i as int]@);
            return true;
        }
        j = j + 1;
    }
    false
}

/// Builds the serial-port list shown to the operator from the ports the
/// system `detected`: the configured port always comes first and is always
/// present, even when enumeration finds nothing, as the path the operator
/// must be able to reconnect to; the other detected ports follow,
/// deduplicated, in the order of their first detection.
pub fn enumerate_ports(configured_port: &str, detected: Vec<String>) -> (ports: Vec<String>)
    ensures
        string_views(ports@) == seq![configured_port@] + others(
            string_views(detected@),
            configured_port@,
        ),
{
    let configured = configured_port.to_owned();
    let mut ports: Vec<String> = Vec::new();
    ports.push(configured_port.to_owned());
    let mut i: usize = 0;
    assert(string_views(detected@).take(0) =~= Seq::<Seq<char>>::empty());
    assert(string_views(ports@) =~= seq![configured_port@] + others(
        string_views(detected@).take(0),
        configured_port@,
    ));
    while i < detected.len()
        invariant
            i <= detected@.len(),
            configured@ == configured_port@,
            string_views(ports@) == seq![configured_port@] + others(
                string_views(detected@).take(i as int),
                configured_port@,
            ),
        decreases detected.len() - i,
    {
        let ghost before = ports@;
        let ghost prefix = string_views(detected@).take(i + 1);
        assert(prefix.drop_last() =~= string_views(detected@).take(i as int));
        assert(prefix.last() == detected@[i as int]@);
        if detected[i] != configured && !seen_before(&detected, i) {
            ports.push(detected[i].clone());
            assert(string_views(ports@) =~= string_views(before).push(detected@[i as int]@));
        }
        i = i + 1;
    }
    assert(string_views(detected@).take(detected@.len() as int) =~= string_views(detected@));
    ports
}

/// The port list holds no port twice: the configured one comes once, first,
/// and every other detected port once.
pub proof fn lemma_ports_are_distinct(detected: Seq<Seq<char>>, configured: Seq<char>)
    ensures
        (seq![configured] + others(detected, configured)).no_duplicates(),
{
    lemma_others_distinct(detected, configured);
    let r = seq![configured] + others(detected, configured);
    assert forall|a: int, b: int| 0 <= a < r.len() && 0 <= b < r.len() && a != b implies r[a]
        != r[b] by {
        if a > 0 && b > 0 {
            assert(r[a] == others(detected, configured)[a - 1]);
            assert(r[b] == others(detected, configured)[b - 1]);
        } else if a == 0 {
            assert(r[b] == others(detected, configured)[b - 1]);
        } else {
            assert(r[a] == others(detected, configured)[a - 1]);
        }
    }
}

/// The port list holds exactly the configured port and the detected ones.
pub proof fn lemma_ports_cover_the_detected(
    detected: Seq<Seq<char>>,
    configured: Seq<char>,
    port: Seq<char>,
)
    ensures
        (seq![configured] + others(detected, configured)).contains(port) <==> (port == configured
            || detected.contains(port)),
{
    lemma_others_members(detected, configured, port);
    let r = seq![configured] + others(detected, configured);
    if others(detected, configured).contains(port) {
        let k = choose|k: int| 0 <= k < others(detected, configured).len() && others(detected, configured)[k] == port;
        assert(r[k + 1] == port);
    }
    if r.contains(port) && port != configured {
        let k = choose|k: int| 0 <= k < r.len() && r[k] == port;
        assert(k > 0);
        assert(others(detected, configured)[k - 1] == port);
    }
    assert(r[0] == configured);
}

proof fn lemma_others_members(detected: Seq<Seq<char>>, configured: Seq<char>, port: Seq<char>)
    ensures
        others(detected, configured).contains(port) <==> (port != configured
            && detected.contains(port)),
    decreases detected.len(),
{
    if detected.len() > 0 {
        let front = detected.drop_last();
        lemma_others_members(front, configured, port);
        assert(detected =~= front.push(detected.last()));
        if detected.contains(port) && !front.contains(port) {
            let k = choose|k: int| 0 <= k < detected.len() && detected[k] == port;
            if k < front.len() {
                assert(front[k] == port);
            }
        }
        if front.contains(port) {
            let k = choose|k: int| 0 <= k < front.len() && front[k] == port;
            assert(detected[k] == port);
        }
        let o = others(front, configured);
        if !(detected.last() == configured || front.contains(detected.last())) {
            if o.push(detected.last()).contains(port) && port != detected.last() {
                let k = choose|k: int| 0 <= k < o.push(detected.last()).len() && o.push(detected.last())[k] == port;
                assert(o[k] == port);
            }
            if o.contains(port) {
                let k = choose|k: int| 0 <= k < o.len() && o[k] == port;
                assert(o.push(detected.last())[k] == port);
            }
            assert(o.push(detected.last())[o.len() as int] == detected.last());
        }
    }
}

proof fn lemma_others_distinct(detected: Seq<Seq<char>>, configured: Seq<char>)
    ensures
        others(detected, configured).no_duplicates(),
        !others(detected, configured).contains(configured),
    decreases detected.len(),
{
    if detected.len() > 0 {
        let front = detected.drop_last();
        lemma_others_distinct(front, configured);
        lemma_others_members(front, configured, detected.last());
        let o = others(front, configured);
        if !(detected.last() == configured || front.contains(detected.last())) {
            let p = o.push(detected.last());
            assert forall|a: int, b: int| 0 <= a < p.len() && 0 <= b < p.len() && a != b implies p[a]
                != p[b] by {
                if a < o.len() && b < o.len() {
                    assert(p[a] == o[a] && p[b] == o[b]);
                } else if a < o.len() {
                    assert(p[a] == o[a]);
                } else {
                    assert(p[b] == o[b]);
                }
            }
            if p.contains(configured) {
                let k = choose|k: int| 0 <= k < p.len() && p[k] == configured;
                if k < o.len() {
                    assert(o[k] == configured);
                }
            }
        }
    }
}

} // verus!
