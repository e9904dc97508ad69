//! Magnet links.

use vstd::prelude::*;
use vstd::string::*;

use crate::encoding::{law_encoded_text_is_url_safe, urlencoded, urlencoding};
use crate::text::{lemma_split_one, lemma_split_step, split_at_char, string_views};

verus! {

/// The trackers of a torrent for which the site names none.
pub open spec fn fallback_list() -> Seq<Seq<char>> {
    seq![
        "udp://tracker.opentrackr.org:1337/announce"@,
        "udp://open.stealth.si:80/announce"@,
        "udp://exodus.desync.com:6969/announce"@,
        "udp://tracker.torrent.eu.org:451/announce"@,
        "udp://tracker.dler.org:6969/announce"@,
        "udp://tracker.tiny-vps.com:6969/announce"@,
        "udp://p4p.arenabg.com:1337/announce"@,
        "udp://bt1.archive.org:6969/announce"@,
        "http://tracker.bt4g.com:2095/announce"@,
        "http://bt.okmp3.ru:2710/announce"@,
        "http://tracker2.dler.org:80/announce"@,
    ]
}

/// The trackers that a magnet link names.
pub open spec fn effective_trackers(trackers: Seq<Seq<char>>) -> Seq<Seq<char>> {
    if trackers.len() == 0 {
        fallback_list()
    } else {
        trackers
    }
}

/// The parameters of a magnet link that name the trackers.
pub open spec fn tracker_parameters(trackers: Seq<Seq<char>>) -> Seq<char>
    decreases trackers.len(),
{
    if trackers.len() == 0 {
        Seq::empty()
    } else {
        tracker_parameters(trackers.drop_last()) + "&tr="@ + urlencoded(trackers.last())
    }
}

/// The magnet link of a torrent.
pub open spec fn magnet_link(
    hash: Seq<char>,
    title: Seq<char>,
    trackers: Seq<Seq<char>>,
) -> Seq<char> {
    "magnet:?xt=urn:btih:"@ + hash + "&dn="@ + urlencoded(title) + tracker_parameters(
        effective_trackers(trackers),
    )
}

/// The trackers of a torrent for which the site names none.
pub fn fallback_trackers() -> (r: Vec<String>)
    ensures
        string_views(r@) == fallback_list(),
{
    let mut r: Vec<String> = Vec::new();
    r.push("udp://tracker.opentrackr.org:1337/announce".to_owned());
    r.push("udp://open.stealth.si:80/announce".to_owned());
    r.push("udp://exodus.desync.com:6969/announce".to_owned());
    r.push("udp://tracker.torrent.eu.org:451/announce".to_owned());
    r.push("udp://tracker.dler.org:6969/announce".to_owned());
    r.push("udp://tracker.tiny-vps.com:6969/announce".to_owned());
    r.push("udp://p4p.arenabg.com:1337/announce".to_owned());
    r.push("udp://bt1.archive.org:6969/announce".to_owned());
    r.push("http://tracker.bt4g.com:2095/announce".to_owned());
    r.push("http://bt.okmp3.ru:2710/announce".to_owned());
    r.push("http://tracker2.dler.org:80/announce".to_owned());
    assert(string_views(r@) =~= fallback_list());
    r
}

fn push_tracker_parameters(magnet: &mut String, trackers: &[String])
    ensures
        final(magnet)@ == old(magnet)@ + tracker_parameters(string_views(trackers@)),
{
    let mut i: usize = 0;
    let ghost all = string_views(trackers@);
    assert(magnet@ =~= old(magnet)@ + tracker_parameters(all.take(0)));
    while i < trackers.len()
        invariant
            all == string_views(trackers@),
            i <= trackers@.len(),
            magnet@ == old(magnet)@ + tracker_parameters(all.take(i as int)),
        decreases trackers.len() - i,
    {
        let tracker = urlencoding(trackers[i].as_str());
        magnet.append("&tr=");
        magnet.append(tracker.as_str());
        assert(all.take(i + 1).drop_last() =~= all.take(i as int));
        i += 1;
        assert(magnet@ =~= old(magnet)@ + tracker_parameters(all.take(i as int)));
    }
    assert(all.take(i as int) =~= all);
}

/// The magnet link of the torrent with the info hash `hash`. Where there are no trackers, the
/// fallback trackers stand in for them.
pub fn magnet_from_hash(hash: &str, title: &str, trackers: &[String]) -> (r: String)
    ensures
        r@ == magnet_link(hash@, title@, string_views(trackers@)),
{
    let mut magnet = "magnet:?xt=urn:btih:".to_owned();
    magnet.append(hash);
    magnet.append("&dn=");
    magnet.append(urlencoding(title).as_str());
    if trackers.len() == 0 {
        push_tracker_parameters(&mut magnet, &fallback_trackers());
    } else {
        push_tracker_parameters(&mut magnet, trackers);
    }
    magnet
}

/// The text holds no ampersand.
pub open spec fn is_plain_parameter(s: Seq<char>) -> bool {
    forall|i: int| 0 <= i < s.len() ==> #[trigger] s[i] != '&'
}

/// What a reader of the magnet link finds between its ampersands.
pub open spec fn magnet_parameters(
    hash: Seq<char>,
    title: Seq<char>,
    trackers: Seq<Seq<char>>,
) -> Seq<Seq<char>> {
    seq!["magnet:?xt=urn:btih:"@ + hash, "dn="@ + urlencoded(title)] + effective_trackers(
        trackers,
    ).map_values(|t: Seq<char>| "tr="@ + urlencoded(t))
}

proof fn lemma_first_tracker(trackers: Seq<Seq<char>>)
    requires
        trackers.len() > 0,
    ensures
        tracker_parameters(trackers) == "&tr="@ + urlencoded(trackers[0]) + tracker_parameters(
            trackers.skip(1),
        ),
    decreases trackers.len(),
{
    let parameters = tracker_parameters(trackers);
    if trackers.len() == 1 {
        assert(trackers.drop_last() =~= Seq::<Seq<char>>::empty());
        assert(trackers.skip(1) =~= Seq::<Seq<char>>::empty());
        assert(parameters =~= "&tr="@ + urlencoded(trackers[0]) + tracker_parameters(
            trackers.skip(1),
        ));
    } else {
        lemma_first_tracker(trackers.drop_last());
        assert(trackers.drop_last().skip(1) =~= trackers.skip(1).drop_last());
        assert(parameters =~= "&tr="@ + urlencoded(trackers[0]) + tracker_parameters(
            trackers.skip(1),
        ));
    }
}

proof fn lemma_split_trackers(s: Seq<char>, trackers: Seq<Seq<char>>)
    requires
        is_plain_parameter(s),
    ensures
        split_at_char(s + tracker_parameters(trackers), '&') == seq![s] + trackers.map_values(
            |t: Seq<char>| "tr="@ + urlencoded(t),
        ),
    decreases trackers.len(),
{
    let parameter = |t: Seq<char>| "tr="@ + urlencoded(t);
    if trackers.len() == 0 {
        assert(s + tracker_parameters(trackers) =~= s);
        lemma_split_one(s, '&');
        assert(seq![s] + trackers.map_values(parameter) =~= seq![s]);
    } else {
        let first = parameter(trackers[0]);
        let rest = first + tracker_parameters(trackers.skip(1));
        lemma_first_tracker(trackers);
        reveal_strlit("&tr=");
        reveal_strlit("tr=");
        assert("&tr="@ =~= seq!['&'] + "tr="@);
        assert(s + tracker_parameters(trackers) =~= s + seq!['&'] + rest);
        lemma_split_step(s, '&', rest);
        law_encoded_text_is_url_safe(trackers[0]);
        assert(is_plain_parameter(first)) by {
            assert forall|i: int| 0 <= i < first.len() implies #[trigger] first[i] != '&' by {
                if i >= 3 {
                    assert(first[i] == urlencoded(trackers[0])[i - 3]);
                }
            }
        }
        lemma_split_trackers(first, trackers.skip(1));
        assert(trackers.map_values(parameter) =~= seq![first] + trackers.skip(1).map_values(
            parameter,
        ));
        assert(seq![s] + (seq![first] + trackers.skip(1).map_values(parameter)) =~= seq![s]
            + trackers.map_values(parameter));
    }
}

/// A magnet link says what it was made of: between its ampersands stand the info hash, the title
/// and each tracker, and nothing else, whatever characters the title and the trackers hold. The info
/// hash stands in the link as it is, so it must hold no ampersand.
pub proof fn law_magnet_has_its_parameters(
    hash: Seq<char>,
    title: Seq<char>,
    trackers: Seq<Seq<char>>,
)
    requires
        is_plain_parameter(hash),
    ensures
        split_at_char(magnet_link(hash, title, trackers), '&') == magnet_parameters(
            hash,
            title,
            trackers,
        ),
{
    let link = magnet_link(hash, title, trackers);
    let head = "magnet:?xt=urn:btih:"@ + hash;
    let name = "dn="@ + urlencoded(title);
    let rest = name + tracker_parameters(effective_trackers(trackers));
    reveal_strlit("magnet:?xt=urn:btih:");
    reveal_strlit("&dn=");
    reveal_strlit("dn=");
    assert("&dn="@ =~= seq!['&'] + "dn="@);
    assert(link =~= head + seq!['&'] + rest);
    assert(is_plain_parameter(head)) by {
        assert forall|i: int| 0 <= i < head.len() implies #[trigger] head[i] != '&' by {
            if i >= 20 {
                assert(head[i] == hash[i - 20]);
            }
        }
    }
    lemma_split_step(head, '&', rest);
    law_encoded_text_is_url_safe(title);
    assert(is_plain_parameter(name)) by {
        assert forall|i: int| 0 <= i < name.len() implies #[trigger] name[i] != '&' by {
            if i >= 3 {
                assert(name[i] == urlencoded(title)[i - 3]);
            }
        }
    }
    lemma_split_trackers(name, effective_trackers(trackers));
    assert(split_at_char(link, '&') =~= magnet_parameters(hash, title, trackers));
}

/// A torrent without trackers gets the magnet link that the fallback trackers would give it.
pub proof fn law_no_trackers_means_fallback(hash: Seq<char>, title: Seq<char>)
    ensures
        magnet_link(hash, title, Seq::empty()) == magnet_link(hash, title, fallback_list()),
{
}

/// A magnet link names the torrent by its whole info hash, its whole title and every one of its
/// trackers in their order; only where there are none, it names these eleven.
pub proof fn law_magnet_names_every_tracker(
    hash: Seq<char>,
    title: Seq<char>,
    trackers: Seq<Seq<char>>,
    named: Seq<Seq<char>>,
)
    requires
        forall|i: int| 0 <= i < hash.len() ==> #[trigger] hash[i] != '&',
        trackers.len() > 0 ==> named == trackers,
        trackers.len() == 0 ==> named == seq![
            "udp://tracker.opentrackr.org:1337/announce"@,
            "udp://open.stealth.si:80/announce"@,
            "udp://exodus.desync.com:6969/announce"@,
            "udp://tracker.torrent.eu.org:451/announce"@,
            "udp://tracker.dler.org:6969/announce"@,
            "udp://tracker.tiny-vps.com:6969/announce"@,
            "udp://p4p.arenabg.com:1337/announce"@,
            "udp://bt1.archive.org:6969/announce"@,
            "http://tracker.bt4g.com:2095/announce"@,
            "http://bt.okmp3.ru:2710/announce"@,
            "http://tracker2.dler.org:80/announce"@,
        ],
    ensures
        ({
            let found = split_at_char(magnet_link(hash, title, trackers), '&');
            &&& found.len() == 2 + named.len()
            &&& found[0] == "magnet:?xt=urn:btih:"@ + hash
            &&& found[1] == "dn="@ + urlencoded(title)
            &&& forall|i: int|
                0 <= i < named.len() ==> found[i + 2] == "tr="@ + urlencoded(#[trigger] named[i])
        }),
{
    law_magnet_has_its_parameters(hash, title, trackers);
}

/// A magnet link holds its info hash, its title and its trackers whole and in their order, and one
/// more tracker comes at its end.
pub proof fn law_one_more_tracker_comes_last(
    hash: Seq<char>,
    title: Seq<char>,
    trackers: Seq<Seq<char>>,
    tracker: Seq<char>,
)
    ensures
        magnet_link(hash, title, seq![tracker]) == "magnet:?xt=urn:btih:"@ + hash + "&dn="@
            + urlencoded(title) + "&tr="@ + urlencoded(tracker),
        trackers.len() > 0 ==> magnet_link(hash, title, trackers.push(tracker)) == magnet_link(
            hash,
            title,
            trackers,
        ) + "&tr="@ + urlencoded(tracker),
{
    let head = "magnet:?xt=urn:btih:"@ + hash + "&dn="@ + urlencoded(title);
    assert(seq![tracker].drop_last() =~= Seq::<Seq<char>>::empty());
    reveal_with_fuel(tracker_parameters, 2);
    assert(magnet_link(hash, title, seq![tracker]) =~= head + "&tr="@ + urlencoded(tracker));
    assert(trackers.push(tracker).drop_last() =~= trackers);
    if trackers.len() > 0 {
        assert(magnet_link(hash, title, trackers.push(tracker)) =~= magnet_link(
            hash,
            title,
            trackers,
        ) + "&tr="@ + urlencoded(tracker));
    }
}

} // verus!
