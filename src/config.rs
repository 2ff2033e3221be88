use crate::settings::is_config_error;
use crate::strmap::{keys_unique, lemma_map_of_contains, map_of, StringMap};
use crate::text::{lemma_split_free, lemma_split_pair, lemma_split_sep_then, split, split_str, trim, trim_str};
use crate::DiscoveryError;
use vstd::prelude::*;

verus! {

/// What one `key=value` piece does to the map read so far: the map with the
/// pair added, or the message of the error it raises.
pub open spec fn pair_step(m: Map<Seq<char>, Seq<char>>, pair: Seq<char>) -> Result<
    Map<Seq<char>, Seq<char>>,
    Seq<char>,
> {
    let parts = split(pair, '=');
    if parts.len() < 2 {
        Err("Missing value in pair: "@ + pair)
    } else if parts.len() > 2 {
        Err("Invalid format in pair: "@ + pair)
    } else {
        let k = trim(parts[0]);
        let v = trim(parts[1]);
        if k.len() == 0 {
            Err("Empty key in pair: "@ + pair)
        } else if v.len() == 0 {
            Err("Empty value in pair: "@ + pair)
        } else if m.contains_key(k) {
            Err("Duplicate key: "@ + k)
        } else {
            Ok(m.insert(k, v))
        }
    }
}

/// The pieces read left to right; the first one in error decides the result.
pub open spec fn parse_pairs(pairs: Seq<Seq<char>>) -> Result<
    Map<Seq<char>, Seq<char>>,
    Seq<char>,
>
    decreases pairs.len(),
{
    if pairs.len() == 0 {
        Ok(Map::empty())
    } else {
        match parse_pairs(pairs.drop_last()) {
            Err(e) => Err(e),
            Ok(m) => pair_step(m, pairs.last()),
        }
    }
}

/// Once a piece is in error, the pieces after it do not change the result.
pub proof fn lemma_error_sticks(ps: Seq<Seq<char>>, j: int)
    requires
        0 <= j <= ps.len(),
        parse_pairs(ps.take(j)) is Err,
    ensures
        parse_pairs(ps) == parse_pairs(ps.take(j)),
    decreases ps.len() - j,
{
    if j == ps.len() {
        assert(ps.take(j) =~= ps);
    } else {
        assert(ps.take(j + 1).drop_last() =~= ps.take(j));
        lemma_error_sticks(ps, j + 1);
    }
}

/// The meaning of a configuration string: the pieces between commas, each one
/// `key=value`.
pub open spec fn parse_spec(s: Seq<char>) -> Result<Map<Seq<char>, Seq<char>>, Seq<char>> {
    parse_pairs(split(s, ','))
}

/// `key=value` for one entry.
pub open spec fn pair_text(p: (Seq<char>, Seq<char>)) -> Seq<char> {
    p.0 + "="@ + p.1
}

/// The entries as `key=value` pieces joined by commas.
pub open spec fn join_pairs(s: Seq<(Seq<char>, Seq<char>)>) -> Seq<char>
    decreases s.len(),
{
    if s.len() == 0 {
        Seq::empty()
    } else if s.len() == 1 {
        pair_text(s[0])
    } else {
        join_pairs(s.drop_last()) + ","@ + pair_text(s.last())
    }
}

/// A key or value that is written back as it was read: not empty, without
/// surrounding white space, and without `,` or `=`.
pub open spec fn clean(x: Seq<char>) -> bool {
    x.len() > 0 && trim(x) == x && forall|i: int| 0 <= i < x.len() ==> x[i] != ',' && x[i] != '='
}

proof fn lemma_split_join(s: Seq<(Seq<char>, Seq<char>)>)
    requires
        s.len() > 0,
        forall|i: int| 0 <= i < s.len() ==> clean(#[trigger] s[i].0) && clean(s[i].1),
    ensures
        split(join_pairs(s), ',') == s.map_values(|p: (Seq<char>, Seq<char>)| pair_text(p)),
    decreases s.len(),
{
    reveal_strlit("=");
    reveal_strlit(",");
    let t = pair_text(s.last());
    assert(s.last() == s[s.len() - 1]);
    assert forall|i: int| 0 <= i < t.len() implies t[i] != ',' by {
        if i < s.last().0.len() {
            assert(t[i] == s.last().0[i]);
        } else if i > s.last().0.len() {
            assert(t[i] == s.last().1[i - s.last().0.len() - 1]);
        }
    }
    if s.len() == 1 {
        lemma_split_free(t, ',');
        assert(s.map_values(|p: (Seq<char>, Seq<char>)| pair_text(p)) =~= seq![t]);
    } else {
        let d = s.drop_last();
        assert forall|i: int| 0 <= i < d.len() implies clean(#[trigger] d[i].0) && clean(d[i].1) by {
            assert(d[i] == s[i]);
        }
        lemma_split_join(d);
        assert(join_pairs(s) == join_pairs(d) + ","@ + t);
        assert(join_pairs(d) + ","@ + t =~= join_pairs(d).push(',') + t);
        lemma_split_sep_then(join_pairs(d), t, ',');
        assert(s.map_values(|p: (Seq<char>, Seq<char>)| pair_text(p)) =~= d.map_values(
            |p: (Seq<char>, Seq<char>)| pair_text(p),
        ).push(t));
    }
}

proof fn lemma_parse_texts(s: Seq<(Seq<char>, Seq<char>)>)
    requires
        keys_unique(s),
        forall|i: int| 0 <= i < s.len() ==> clean(#[trigger] s[i].0) && clean(s[i].1),
    ensures
        parse_pairs(s.map_values(|p: (Seq<char>, Seq<char>)| pair_text(p))) == Ok::<
            Map<Seq<char>, Seq<char>>,
            Seq<char>,
        >(map_of(s)),
    decreases s.len(),
{
    let ts = s.map_values(|p: (Seq<char>, Seq<char>)| pair_text(p));
    if s.len() > 0 {
        let d = s.drop_last();
        assert forall|i: int| 0 <= i < d.len() implies clean(#[trigger] d[i].0) && clean(d[i].1) by {
            assert(d[i] == s[i]);
        }
        lemma_parse_texts(d);
        assert(ts.drop_last() =~= d.map_values(|p: (Seq<char>, Seq<char>)| pair_text(p)));
        let (k, v) = s.last();
        assert(s.last() == s[s.len() - 1]);
        reveal_strlit("=");
        assert(pair_text(s.last()) =~= k.push('=') + v);
        lemma_split_sep_then(Seq::empty(), k, '=');
        lemma_split_pair(k, v, '=');
        lemma_map_of_contains(d, k);
        if map_of(d).contains_key(k) {
            let j = choose|j: int| 0 <= j < d.len() && d[j].0 == k;
            assert(s[j].0 == k);
        }
    }
}

/// Writing the entries of a map back as `key=value` pieces joined by commas, in
/// any order, and parsing that text gives the same map.
pub proof fn lemma_round_trip(s: Seq<(Seq<char>, Seq<char>)>)
    requires
        s.len() > 0,
        keys_unique(s),
        forall|i: int| 0 <= i < s.len() ==> clean(#[trigger] s[i].0) && clean(s[i].1),
    ensures
        parse_spec(join_pairs(s)) == Ok::<Map<Seq<char>, Seq<char>>, Seq<char>>(map_of(s)),
{
    lemma_split_join(s);
    lemma_parse_texts(s);
}

/// Whether `r` is what `parse_config` owes for the text `s`.
pub open spec fn parse_result(s: Seq<char>, r: Result<StringMap, DiscoveryError>) -> bool {
    match parse_spec(s) {
        Ok(m) => r is Ok && r->Ok_0.wf() && r->Ok_0@ == m,
        Err(msg) => r is Err && is_config_error(r->Err_0, msg),
    }
}

/// Parses `key=value,key=value` into a map. Keys and values are trimmed of white
/// space and must not be empty; a piece must hold exactly one `=`; a key may
/// come only once.
pub fn parse_config(config: &str) -> (r: Result<StringMap, DiscoveryError>)
    ensures
        parse_result(config@, r),
{
    let pairs = split_str(config, ',');
    let ghost ps = split(config@, ',');
    let mut result = StringMap::new();
    let mut i: usize = 0;
    while i < pairs.len()
        invariant
            ps == split(config@, ','),
            pairs@.len() == ps.len(),
            forall|k: int| 0 <= k < pairs@.len() ==> #[trigger] pairs@[k]@ == ps[k],
            i <= pairs@.len(),
            result.wf(),
            parse_pairs(ps.take(i as int)) == Ok::<Map<Seq<char>, Seq<char>>, Seq<char>>(
                result@,
            ),
        decreases pairs@.len() - i,
    {
        let pair = &pairs[i];
        assert(ps.take(i + 1).drop_last() =~= ps.take(i as int));
        assert(ps.take(i + 1).last() == pair@);
        let parts = split_str(pair.as_str(), '=');
        if parts.len() < 2 || parts.len() > 2 {
            proof {
                lemma_error_sticks(ps, i + 1);
            }
        }
        if parts.len() < 2 {
            return Err(DiscoveryError::ConfigError(
                String::from_str("Missing value in pair: ").concat(pair.as_str()),
            ));
        }
        if parts.len() > 2 {
            return Err(
                DiscoveryError::ConfigError(
                    String::from_str("Invalid format in pair: ").concat(pair.as_str()),
                ),
            );
        }
        let key = trim_str(parts[0].as_str());
        let value = trim_str(parts[1].as_str());
        proof {
            if key@.len() == 0 || value@.len() == 0 || result@.contains_key(key@) {
                lemma_error_sticks(ps, i + 1);
            }
        }
        if key.unicode_len() == 0 {
            return Err(DiscoveryError::ConfigError(
                String::from_str("Empty key in pair: ").concat(pair.as_str()),
            ));
        }
        if value.unicode_len() == 0 {
            return Err(DiscoveryError::ConfigError(
                String::from_str("Empty value in pair: ").concat(pair.as_str()),
            ));
        }
        if result.contains_key(key.as_str()) {
            return Err(
                DiscoveryError::ConfigError(
                    String::from_str("Duplicate key: ").concat(key.as_str()),
                ),
            );
        }
        result.insert(key, value);
        i = i + 1;
    }
    assert(ps.take(pairs@.len() as int) =~= ps);
    Ok(result)
}

} // verus!
