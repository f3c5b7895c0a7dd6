//! The settings of the tracker.

use crate::paths::{join, joined};
use crate::text::{clone_strings, concat3, lemma_texts_push, list_contains, str_eq, texts};
use vstd::prelude::*;

verus! {

/// Where commits are reported to, and which are not.
pub struct TrackerConfig {
    pub tracker_url: String,
    pub team_id: String,
    pub team_key: String,
    pub username: Option<String>,
    pub blacklist: Vec<String>,
}

/// Whether two configurations differ at most in their blacklists.
pub open spec fn same_but_blacklist(a: TrackerConfig, b: TrackerConfig) -> bool {
    &&& a.tracker_url == b.tracker_url
    &&& a.team_id == b.team_id
    &&& a.team_key == b.team_key
    &&& a.username == b.username
}

/// The file of the tracker's settings in a home directory.
pub fn config_path(home: &str) -> (r: String)
    ensures
        r@ == joined(joined(home@, ".git-ai"@), "tracker-config.json"@),
{
    join(join(home, ".git-ai").as_str(), "tracker-config.json")
}

/// A list without a text.
pub open spec fn without_text(list: Seq<Seq<char>>, text: Seq<char>) -> Seq<Seq<char>>
    decreases list.len(),
{
    if list.len() == 0 {
        list
    } else if list.last() == text {
        without_text(list.drop_last(), text)
    } else {
        without_text(list.drop_last(), text).push(list.last())
    }
}

/// Puts a pattern on the blacklist of the configuration that was read, if one
/// was. The result is the configuration to be written.
pub fn add_to_blacklist(config: Option<TrackerConfig>, pattern: &str) -> (r: Result<
    TrackerConfig,
    String,
>)
    ensures
        match config {
            None => r matches Err(e) && e@ == "Config file not found"@,
            Some(c) => if texts(c.blacklist@).contains(pattern@) {
                r matches Err(e) && e@ == "Pattern '"@ + pattern@ + "' already in blacklist"@
            } else {
                r matches Ok(n) && same_but_blacklist(c, n) && texts(n.blacklist@) == texts(
                    c.blacklist@,
                ).push(pattern@)
            },
        },
{
    match config {
        None => Err("Config file not found".to_owned()),
        Some(c) => {
            if list_contains(c.blacklist.as_slice(), pattern) {
                return Err(concat3("Pattern '", pattern, "' already in blacklist"));
            }
            let mut n = c;
            let ghost before = n.blacklist@;
            let added = pattern.to_owned();
            let ghost v = added;
            n.blacklist.push(added);
            proof {
                lemma_texts_push(before, v);
            }
            Ok(n)
        },
    }
}

/// Takes a pattern off the blacklist of the configuration that was read, if
/// one was. The result is the configuration to be written.
pub fn remove_from_blacklist(config: Option<TrackerConfig>, pattern: &str) -> (r: Result<
    TrackerConfig,
    String,
>)
    ensures
        match config {
            None => r matches Err(e) && e@ == "Config file not found"@,
            Some(c) => if texts(c.blacklist@).contains(pattern@) {
                r matches Ok(n) && same_but_blacklist(c, n) && texts(n.blacklist@) == without_text(
                    texts(c.blacklist@),
                    pattern@,
                )
            } else {
                r matches Err(e) && e@ == "Pattern '"@ + pattern@ + "' not found in blacklist"@
            },
        },
{
    match config {
        None => Err("Config file not found".to_owned()),
        Some(c) => {
            let ghost all = texts(c.blacklist@);
            let mut kept: Vec<String> = Vec::new();
            let mut i: usize = 0;
            proof {
                assert(all.take(0) =~= Seq::empty());
                assert(texts(kept@) =~= Seq::empty());
            }
            while i < c.blacklist.len()
                invariant
                    i <= c.blacklist@.len(),
                    all == texts(c.blacklist@),
                    texts(kept@) == without_text(all.take(i as int), pattern@),
                    kept@.len() <= i,
                    kept@.len() == i <==> !all.take(i as int).contains(pattern@),
                decreases c.blacklist.len() - i,
            {
                proof {
                    let next = all.take(i + 1);
                    assert(next.drop_last() =~= all.take(i as int));
                    assert(next.last() == c.blacklist@[i as int]@);
                    assert(next =~= all.take(i as int).push(next.last()));
                    lemma_contains_push(all.take(i as int), next.last(), pattern@);
                }
                if !str_eq(c.blacklist[i].as_str(), pattern) {
                    let one = c.blacklist[i].clone();
                    let ghost before = kept@;
                    let ghost v = one;
                    kept.push(one);
                    proof {
                        lemma_texts_push(before, v);
                    }
                }
                i += 1;
            }
            assert(all.take(all.len() as int) =~= all);
            if kept.len() == c.blacklist.len() {
                return Err(concat3("Pattern '", pattern, "' not found in blacklist"));
            }
            let mut n = c;
            n.blacklist = kept;
            Ok(n)
        },
    }
}

/// The blacklist of the configuration that was read, if one was.
pub fn list_blacklist(config: &Option<TrackerConfig>) -> (r: Result<Vec<String>, String>)
    ensures
        match *config {
            None => r matches Err(e) && e@ == "Config file not found"@,
            Some(c) => r matches Ok(list) && texts(list@) == texts(c.blacklist@),
        },
{
    match config {
        None => Err("Config file not found".to_owned()),
        Some(c) => Ok(clone_strings(c.blacklist.as_slice())),
    }
}

proof fn lemma_contains_push(list: Seq<Seq<char>>, last: Seq<char>, text: Seq<char>)
    ensures
        list.push(last).contains(text) == (list.contains(text) || last == text),
{
    let longer = list.push(last);
    if list.contains(text) {
        let k = choose|k: int| 0 <= k < list.len() && list[k] == text;
        assert(longer[k] == text);
    }
    if last == text {
        assert(longer[list.len() as int] == text);
    }
    if longer.contains(text) {
        let k = choose|k: int| 0 <= k < longer.len() && longer[k] == text;
        if k < list.len() {
            assert(list[k] == text);
        }
    }
}

proof fn lemma_without_text(list: Seq<Seq<char>>, text: Seq<char>)
    ensures
        !without_text(list, text).contains(text),
        !list.contains(text) ==> without_text(list, text) == list,
    decreases list.len(),
{
    if list.len() > 0 {
        let front = list.drop_last();
        lemma_without_text(front, text);
        assert(list =~= front.push(list.last()));
        lemma_contains_push(front, list.last(), text);
        lemma_contains_push(without_text(front, text), list.last(), text);
    }
}

/// A pattern that was taken off the blacklist is not on it any more, and
/// taking off one that was just put there gives the list back.
pub proof fn law_blacklist_forgets(list: Seq<Seq<char>>, pattern: Seq<char>)
    ensures
        !without_text(list, pattern).contains(pattern),
        !list.contains(pattern) ==> without_text(list.push(pattern), pattern) == list,
{
    lemma_without_text(list, pattern);
    assert(list.push(pattern).drop_last() =~= list);
}

} // verus!
