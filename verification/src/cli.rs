//! What the command line prints.

use vstd::prelude::*;
use vstd::string::StringExecFns;

use crate::config::SyncConfig;
use crate::diagnostics::{CheckStatus, DoctorCheck};
use crate::paths;
use crate::paths::is_pairing_file;
use crate::sync;
use crate::sync::{delays_from_offsets, ZoneDelay};
use crate::text;
use crate::text_map;
use crate::text_map::TextMap;
use crate::types::SonosZone;

verus! {

// ---------------------------------------------------------------------------
// Tables
// ---------------------------------------------------------------------------
/// A number of spaces.
pub open spec fn blanks(n: int) -> Seq<char> {
    if n > 0 {
        Seq::new(n as nat, |i: int| ' ')
    } else {
        Seq::empty()
    }
}

/// A text filled up with spaces behind it.
pub open spec fn padded(s: Seq<char>, width: int) -> Seq<char> {
    s + blanks(width - s.len())
}

/// A text filled up with spaces in front of it.
pub open spec fn indented(s: Seq<char>, width: int) -> Seq<char> {
    blanks(width - s.len()) + s
}

fn append_blanks(out: &mut String, n: usize)
    ensures
        final(out)@ == old(out)@ + blanks(n as int),
{
    let mut i: usize = 0;
    while i < n
        invariant
            i <= n,
            out@ == old(out)@ + blanks(i as int),
        decreases n - i,
    {
        out.push(' ');
        assert(out@ =~= old(out)@ + blanks(i + 1));
        i = i + 1;
    }
}

fn append_padded(out: &mut String, s: &str, width: usize)
    ensures
        final(out)@ == old(out)@ + padded(s@, width as int),
{
    let chars = text::to_chars(s);
    out.append(s);
    if chars.len() < width {
        append_blanks(out, width - chars.len());
    }
    assert(out@ =~= old(out)@ + padded(s@, width as int));
}

/// The first line of the table of zones.
pub fn zone_table_header() -> (r: String)
    ensures
        r@ == padded("Room"@, 24) + " "@ + padded("IP"@, 15) + " "@ + padded("RINCON"@, 28) + " "@
            + padded("Coord"@, 8) + " Model"@,
{
    let mut r = String::new();
    append_padded(&mut r, "Room", 24);
    r.append(" ");
    append_padded(&mut r, "IP", 15);
    r.append(" ");
    append_padded(&mut r, "RINCON", 28);
    r.append(" ");
    append_padded(&mut r, "Coord", 8);
    r.append(" Model");
    assert(r@ =~= padded("Room"@, 24) + " "@ + padded("IP"@, 15) + " "@ + padded("RINCON"@, 28)
        + " "@ + padded("Coord"@, 8) + " Model"@);
    r
}

/// The line of a zone in the table of zones.
pub open spec fn zone_row(zone: SonosZone) -> Seq<char> {
    let coordinator = if zone.is_group_coordinator {
        "true"@
    } else {
        "false"@
    };
    padded(zone.room_name@, 24) + " "@ + padded(zone.ip.words(), 15) + " "@ + padded(
        zone.rincon_id@,
        28,
    ) + " "@ + padded(coordinator, 8) + " "@ + zone.model@
}

/// The line of a zone in the table of zones.
pub fn zone_table_row(zone: &SonosZone) -> (r: String)
    ensures
        r@ == zone_row(*zone),
{
    let mut r = String::new();
    append_padded(&mut r, zone.room_name.as_str(), 24);
    r.append(" ");
    let ip = zone.ip.text();
    append_padded(&mut r, ip.as_str(), 15);
    r.append(" ");
    append_padded(&mut r, zone.rincon_id.as_str(), 28);
    r.append(" ");
    if zone.is_group_coordinator {
        append_padded(&mut r, "true", 8);
    } else {
        append_padded(&mut r, "false", 8);
    }
    r.append(" ");
    r.append(zone.model.as_str());
    assert(r@ =~= zone_row(*zone));
    r
}

/// A status in one word.
pub open spec fn status_word(status: CheckStatus) -> Seq<char> {
    match status {
        CheckStatus::Pass => "PASS"@,
        CheckStatus::Warn => "WARN"@,
        CheckStatus::Fail => "FAIL"@,
    }
}

/// The line of a check.
pub fn check_line(check: &DoctorCheck) -> (r: String)
    ensures
        r@ == indented(status_word(check.status), 4) + "  "@ + padded(check.name@, 36) + " "@
            + check.detail@,
{
    proof {
        reveal_strlit("PASS");
        reveal_strlit("WARN");
        reveal_strlit("FAIL");
    }
    let mut r = match check.status {
        CheckStatus::Pass => "PASS".to_owned(),
        CheckStatus::Warn => "WARN".to_owned(),
        CheckStatus::Fail => "FAIL".to_owned(),
    };
    assert(r@ =~= indented(status_word(check.status), 4));
    r.append("  ");
    append_padded(&mut r, check.name.as_str(), 36);
    r.append(" ");
    r.append(check.detail.as_str());
    assert(r@ =~= indented(status_word(check.status), 4) + "  "@ + padded(check.name@, 36) + " "@
        + check.detail@);
    r
}

// ---------------------------------------------------------------------------
// Pairings
// ---------------------------------------------------------------------------
/// The pairing files among file names, in dictionary order.
pub fn pairing_files(names: &Vec<String>) -> (r: Vec<String>)
    ensures
        forall|i: int, j: int|
            0 <= i < j < r@.len() ==> text_map::text_less(
                (#[trigger] r@[i])@,
                (#[trigger] r@[j])@,
            ),
        forall|name: Seq<char>|
            (exists|i: int| 0 <= i < r@.len() && (#[trigger] r@[i])@ == name) <==> (
            #[trigger] paths::extension(name) == Some("json"@) && exists|i: int|
                0 <= i < names@.len() && (#[trigger] names@[i])@ == name),
{
    let mut kept: TextMap<()> = TextMap::new();
    let mut i: usize = 0;
    while i < names.len()
        invariant
            i <= names@.len(),
            forall|name: Seq<char>| #[trigger]
                kept@.dom().contains(name) <==> paths::extension(name) == Some("json"@) && exists|
                    j: int,
                |
                    0 <= j < i && (#[trigger] names@[j])@ == name,
        decreases names@.len() - i,
    {
        let ghost before = kept@;
        if is_pairing_file(names[i].as_str()) {
            kept.insert(names[i].clone(), ());
        }
        proof {
            assert forall|name: Seq<char>| #[trigger] kept@.dom().contains(name) <==> (
            paths::extension(name) == Some("json"@) && exists|j: int|
                0 <= j < i + 1 && (#[trigger] names@[j])@ == name) by {
                if kept@.dom().contains(name) {
                    if before.dom().contains(name) {
                    } else {
                        assert(names@[i as int]@ == name);
                    }
                }
                if paths::extension(name) == Some("json"@) && exists|j: int|
                    0 <= j < i + 1 && (#[trigger] names@[j])@ == name {
                    let j = choose|j: int| 0 <= j < i + 1 && (#[trigger] names@[j])@ == name;
                    if j < i {
                        assert(before.dom().contains(name));
                    }
                }
            }
        }
        i = i + 1;
    }
    let entries = kept.to_entries();
    let mut r: Vec<String> = Vec::new();
    let mut k: usize = 0;
    while k < entries.len()
        invariant
            k <= entries@.len(),
            r@.len() == k,
            forall|j: int| 0 <= j < k ==> (#[trigger] r@[j])@ == entries@[j].0@,
        decreases entries@.len() - k,
    {
        r.push(entries[k].0.clone());
        k = k + 1;
    }
    proof {
        assert forall|i: int, j: int| 0 <= i < j < r@.len() implies text_map::text_less(
            (#[trigger] r@[i])@,
            (#[trigger] r@[j])@,
        ) by {
            assert(text_map::text_less(entries@[i].0@, entries@[j].0@));
        }
        assert forall|name: Seq<char>|
            (exists|i: int| 0 <= i < r@.len() && (#[trigger] r@[i])@ == name) <==> (
            #[trigger] paths::extension(name) == Some("json"@) && exists|i: int|
                0 <= i < names@.len() && (#[trigger] names@[i])@ == name) by {
            assert(kept@.dom().contains(name) <==> text_map::has_key(entries@, name));
            if exists|i: int| 0 <= i < r@.len() && (#[trigger] r@[i])@ == name {
                let i = choose|i: int| 0 <= i < r@.len() && (#[trigger] r@[i])@ == name;
                assert(entries@[i].0@ == name);
            }
            if text_map::has_key(entries@, name) {
                let i = text_map::key_at(entries@, name);
                assert(r@[i]@ == name);
            }
        }
    }
    r
}

/// The line of a pairing file.
pub fn pairing_line(path: &str, count: usize) -> (r: String)
    ensures
        r@ == path@ + ": "@ + text::decimal(count as nat) + " stored client key(s)"@,
{
    let mut r = path.to_owned();
    r.append(": ");
    let digits = text::decimal_text(count as u64);
    r.append(digits.as_str());
    r.append(" stored client key(s)");
    r
}

// ---------------------------------------------------------------------------
// Calibration
// ---------------------------------------------------------------------------
/// The offset of a zone: its own, or the default one.
pub open spec fn offset_of(config: SyncConfig, zone: Seq<char>) -> i64 {
    if config.zone_offsets_ms@.dom().contains(zone) {
        config.zone_offsets_ms@[zone]
    } else {
        config.default_offset_ms
    }
}

/// The offsets of zones.
pub open spec fn offsets_for(config: SyncConfig, zones: Seq<String>) -> Map<Seq<char>, i64>
    decreases zones.len(),
{
    if zones.len() == 0 {
        Map::empty()
    } else {
        offsets_for(config, zones.drop_last()).insert(
            zones.last()@,
            offset_of(config, zones.last()@),
        )
    }
}

/// The delay plan of zones, or nothing where none are given: each zone once, in
/// dictionary order, with what its offset is below the greatest one.
pub fn calibration_plan(zones: &Vec<String>, config: &SyncConfig) -> (r: Option<Vec<ZoneDelay>>)
    ensures
        match r {
            Some(delays) => zones@.len() > 0 && exists|pairs: Seq<(String, i64)>|
                {
                    &&& text_map::keys_ordered(pairs)
                    &&& #[trigger] text_map::entries_map(pairs) == offsets_for(*config, zones@)
                    &&& delays@.len() == pairs.len()
                    &&& forall|i: int|
                        0 <= i < delays@.len() ==> {
                            &&& (#[trigger] delays@[i]).zone_id@ == pairs[i].0@
                            &&& delays@[i].delay_ms == sync::greatest_offset(pairs) - pairs[i].1
                        }
                },
            None => zones@.len() == 0,
        },
{
    if zones.len() == 0 {
        return None;
    }
    let mut offsets: TextMap<i64> = TextMap::new();
    let mut i: usize = 0;
    assert(zones@.take(0) =~= Seq::empty());
    while i < zones.len()
        invariant
            i <= zones@.len(),
            offsets@ == offsets_for(*config, zones@.take(i as int)),
        decreases zones@.len() - i,
    {
        proof {
            let next = zones@.take(i + 1);
            assert(next.drop_last() =~= zones@.take(i as int));
            assert(next.last() == zones@[i as int]);
        }
        let offset: i64 = match config.zone_offsets_ms.get(zones[i].as_str()) {
            Some(offset) => *offset,
            None => config.default_offset_ms,
        };
        offsets.insert(zones[i].clone(), offset);
        i = i + 1;
    }
    assert(zones@.take(i as int) =~= zones@);
    let n: usize = offsets.len();
    let delays = delays_from_offsets(&offsets);
    assert(text_map::entries_map(offsets.pairs()) == offsets_for(*config, zones@));
    Some(delays)
}

/// The line of a zone in a delay plan.
pub fn delay_line(delay: &ZoneDelay) -> (r: String)
    ensures
        r@ == delay.zone_id@ + ": delay "@ + text::decimal(delay.delay_ms as nat) + " ms"@,
{
    let mut r = delay.zone_id.as_str().to_owned();
    r.append(": delay ");
    let digits = text::decimal_text(delay.delay_ms);
    r.append(digits.as_str());
    r.append(" ms");
    r
}

// ---------------------------------------------------------------------------
// Laws
// ---------------------------------------------------------------------------
/// A text is padded with blanks behind it up to a width; a longer one is left as
/// it is. An indented one has them in front.
pub proof fn texts_are_padded_with_blanks(s: Seq<char>, width: int, k: int)
    ensures
        s.is_prefix_of(padded(s, width)),
        s.is_suffix_of(indented(s, width)),
        s.len() >= width ==> padded(s, width) == s && indented(s, width) == s,
        s.len() < width ==> padded(s, width).len() == width && indented(s, width).len() == width,
        s.len() <= k < padded(s, width).len() ==> padded(s, width)[k] == ' ',
        0 <= k < indented(s, width).len() - s.len() ==> indented(s, width)[k] == ' ',
{
    let p = padded(s, width);
    let q = indented(s, width);
    assert(s =~= p.take(s.len() as int));
    assert(s =~= q.skip(q.len() - s.len()));
    if s.len() >= width {
        assert(p =~= s);
        assert(q =~= s);
    }
}

/// The columns of the table of zones stand below their headings: the address
/// begins at the same place in every row whose room fits its column.
pub proof fn columns_stand_below_their_headings(
    header: String,
    zone: &SonosZone,
    row: String,
)
    requires
        call_ensures(zone_table_header, (), header),
        call_ensures(zone_table_row, (zone,), row),
        zone.room_name@.len() <= 24,
        zone.ip.words().len() <= 15,
        zone.rincon_id@.len() <= 28,
    ensures
        zone.room_name@.is_prefix_of(row@),
        zone.model@.is_suffix_of(row@),
        row@.len() == 79 + zone.model@.len(),
        row@.subrange(25, 25int + zone.ip.words().len()) == zone.ip.words(),
        row@.subrange(41, 41int + zone.rincon_id@.len()) == zone.rincon_id@,
        header@.len() == 79 + 5,
        header@.subrange(0, 4) == "Room"@,
        header@.subrange(25, 27) == "IP"@,
        header@.subrange(41, 47) == "RINCON"@,
        header@.subrange(70, 75) == "Coord"@,
        header@.subrange(79, 84) == "Model"@,
        zone.is_group_coordinator ==> row@.subrange(70, 74) == "true"@,
        !zone.is_group_coordinator ==> row@.subrange(70, 75) == "false"@,
{
    reveal_strlit(" ");
    reveal_strlit("Room");
    reveal_strlit("IP");
    reveal_strlit("RINCON");
    reveal_strlit("Coord");
    reveal_strlit("Model");
    reveal_strlit(" Model");
    reveal_strlit("true");
    reveal_strlit("false");
    let coordinator = if zone.is_group_coordinator {
        "true"@
    } else {
        "false"@
    };
    let a = padded(zone.room_name@, 24);
    let b = padded(zone.ip.words(), 15);
    let c = padded(zone.rincon_id@, 28);
    let d = padded(coordinator, 8);
    assert(a.len() == 24 && b.len() == 15 && c.len() == 28 && d.len() == 8);
    assert(row@ == a + " "@ + b + " "@ + c + " "@ + d + " "@ + zone.model@);
    assert(row@.len() == 79 + zone.model@.len());
    assert(row@.subrange(25, 25int + zone.ip.words().len()) =~= zone.ip.words());
    assert(row@.subrange(41, 41int + zone.rincon_id@.len()) =~= zone.rincon_id@);
    assert(row@.subrange(70, 70int + coordinator.len()) =~= coordinator);
    assert(zone.room_name@ =~= row@.take(zone.room_name@.len() as int));
    assert(zone.model@ =~= row@.skip(row@.len() - zone.model@.len()));
    let ha = padded("Room"@, 24);
    let hb = padded("IP"@, 15);
    let hc = padded("RINCON"@, 28);
    let hd = padded("Coord"@, 8);
    assert(ha.len() == 24 && hb.len() == 15 && hc.len() == 28 && hd.len() == 8);
    assert(header@ == ha + " "@ + hb + " "@ + hc + " "@ + hd + " Model"@);
    assert(header@.subrange(0, 4) =~= "Room"@);
    assert(header@.subrange(25, 27) =~= "IP"@);
    assert(header@.subrange(41, 47) =~= "RINCON"@);
    assert(header@.subrange(70, 75) =~= "Coord"@);
    assert(header@.subrange(79, 84) =~= "Model"@);
}

/// The pairing files are those among the names that are pairing files, in order
/// and each once.
pub proof fn pairing_files_are_listed_in_order(
    names: &Vec<String>,
    r: Vec<String>,
    i: int,
    name: String,
)
    requires
        call_ensures(pairing_files, (names,), r),
        0 <= i < r@.len(),
    ensures
        exists|k: int| 0 <= k < names@.len() && (#[trigger] names@[k])@ == r@[i]@,
        i + 1 < r@.len() ==> text_map::text_less(r@[i]@, r@[i + 1]@),
        names@.contains(name) && paths::extension(name@) == Some("json"@) ==> exists|k: int|
            0 <= k < r@.len() && (#[trigger] r@[k])@ == name@,
        names@.contains(name) && paths::extension(name@) != Some("json"@) ==> forall|k: int|
            0 <= k < r@.len() ==> (#[trigger] r@[k])@ != name@,
{
    assert(exists|k: int| 0 <= k < r@.len() && (#[trigger] r@[k])@ == r@[i]@);
    assert(paths::extension(r@[i]@) == Some("json"@));
    if names@.contains(name) {
        let k = choose|k: int| 0 <= k < names@.len() && names@[k] == name;
        assert(names@[k]@ == name@);
        if paths::extension(name@) == Some("json"@) {
            assert(exists|k: int| 0 <= k < r@.len() && (#[trigger] r@[k])@ == name@);
        }
    }
}

/// A zone that is calibrated has the offset that is configured for it, or else
/// that of all zones.
pub proof fn zones_have_their_offsets(config: SyncConfig, zones: Seq<String>, i: int)
    requires
        0 <= i < zones.len(),
    ensures
        offsets_for(config, zones).dom().contains(zones[i]@),
        offsets_for(config, zones)[zones[i]@] == if config.zone_offsets_ms@.dom().contains(
            zones[i]@,
        ) {
            config.zone_offsets_ms@[zones[i]@]
        } else {
            config.default_offset_ms
        },
    decreases zones.len(),
{
    if i < zones.len() - 1 {
        zones_have_their_offsets(config, zones.drop_last(), i);
    }
}

/// No other zone is calibrated.
pub proof fn no_other_zones_are_calibrated(config: SyncConfig, zones: Seq<String>, zone: Seq<char>)
    requires
        offsets_for(config, zones).dom().contains(zone),
    ensures
        exists|i: int| 0 <= i < zones.len() && (#[trigger] zones[i])@ == zone,
    decreases zones.len(),
{
    if zones.last()@ == zone {
        assert(zones[zones.len() - 1]@ == zone);
    } else {
        no_other_zones_are_calibrated(config, zones.drop_last(), zone);
        let i = choose|i: int|
            0 <= i < zones.drop_last().len() && (#[trigger] zones.drop_last()[i])@ == zone;
        assert(zones[i]@ == zone);
    }
}

/// The line of a delay begins with its zone and the line of a pairing file with
/// its path; the numbers in them are read back.
pub proof fn lines_name_their_numbers(
    delay: &ZoneDelay,
    delayed: String,
    path: &str,
    count: usize,
    paired: String,
)
    requires
        call_ensures(delay_line, (delay,), delayed),
        call_ensures(pairing_line, (path, count), paired),
    ensures
        delay.zone_id@.is_prefix_of(delayed@),
        text::digits_value(
            delayed@.subrange(delay.zone_id@.len() + 8int, delayed@.len() - 3),
        ) == delay.delay_ms,
        path@.is_prefix_of(paired@),
        text::digits_value(paired@.subrange(path@.len() + 2int, paired@.len() - 21)) == count,
{
    reveal_strlit(": delay ");
    reveal_strlit(" ms");
    reveal_strlit(": ");
    reveal_strlit(" stored client key(s)");
    text::lemma_decimal_digits(delay.delay_ms as nat);
    text::lemma_decimal_digits(count as nat);
    assert(delay.zone_id@ =~= delayed@.take(delay.zone_id@.len() as int));
    assert(delayed@.subrange(delay.zone_id@.len() + 8int, delayed@.len() - 3) =~= text::decimal(
        delay.delay_ms as nat,
    ));
    assert(path@ =~= paired@.take(path@.len() as int));
    assert(paired@.subrange(path@.len() + 2int, paired@.len() - 21) =~= text::decimal(
        count as nat,
    ));
}

/// The line of a check begins with its status, in four columns, and names the
/// check from the seventh on.
pub proof fn check_lines_begin_with_the_status(check: &DoctorCheck, r: String)
    requires
        call_ensures(check_line, (check,), r),
    ensures
        check.status == CheckStatus::Pass ==> r@.take(4) == "PASS"@,
        check.status == CheckStatus::Warn ==> r@.take(4) == "WARN"@,
        check.status == CheckStatus::Fail ==> r@.take(4) == "FAIL"@,
        r@.subrange(6, 6int + check.name@.len()) == check.name@,
        check.detail@.is_suffix_of(r@),
{
    reveal_strlit("PASS");
    reveal_strlit("WARN");
    reveal_strlit("FAIL");
    reveal_strlit("  ");
    reveal_strlit(" ");
    let word = status_word(check.status);
    assert(word.len() == 4);
    assert(indented(word, 4) =~= word);
    let name = padded(check.name@, 36);
    assert(r@ == word + "  "@ + name + " "@ + check.detail@);
    assert(r@.take(4) =~= word);
    assert(r@.subrange(6, 6int + check.name@.len()) =~= check.name@);
    assert(check.detail@ =~= r@.skip(r@.len() - check.detail@.len()));
}

/// A calibration delays every given zone, and only these, so that all are in step
/// with the one whose offset is the greatest, which is not delayed.
pub proof fn calibrated_zones_are_in_step(
    zones: &Vec<String>,
    config: &SyncConfig,
    r: Option<Vec<ZoneDelay>>,
    i: int,
    j: int,
)
    requires
        call_ensures(calibration_plan, (zones, config), r),
    ensures
        r is Some <==> zones@.len() > 0,
        r matches Some(delays) ==> 0 <= i < zones@.len() ==> exists|k: int|
            0 <= k < delays@.len() && (#[trigger] delays@[k]).zone_id@ == zones@[i]@,
        r matches Some(delays) ==> 0 <= i < delays@.len() && 0 <= j < delays@.len()
            ==> delays@[i].delay_ms + offset_of(*config, delays@[i].zone_id@) == delays@[j].delay_ms
            + offset_of(*config, delays@[j].zone_id@),
        r matches Some(delays) ==> exists|k: int|
            0 <= k < delays@.len() && (#[trigger] delays@[k]).delay_ms == 0,
{
    if let Some(delays) = r {
        let pairs = choose|pairs: Seq<(String, i64)>|
            {
                &&& text_map::keys_ordered(pairs)
                &&& #[trigger] text_map::entries_map(pairs) == offsets_for(*config, zones@)
                &&& delays@.len() == pairs.len()
                &&& forall|i: int|
                    0 <= i < delays@.len() ==> {
                        &&& (#[trigger] delays@[i]).zone_id@ == pairs[i].0@
                        &&& delays@[i].delay_ms == sync::greatest_offset(pairs) - pairs[i].1
                    }
            };
        assert forall|k: int| 0 <= k < pairs.len() implies offset_of(*config, delays@[k].zone_id@)
            == (#[trigger] pairs[k]).1 by {
            text_map::lemma_key_once(pairs, k);
            let zone = pairs[k].0@;
            assert(offsets_for(*config, zones@).dom().contains(zone));
            no_other_zones_are_calibrated(*config, zones@, zone);
            let n = choose|n: int| 0 <= n < zones@.len() && (#[trigger] zones@[n])@ == zone;
            zones_have_their_offsets(*config, zones@, n);
        }
        if 0 <= i < zones@.len() {
            zones_have_their_offsets(*config, zones@, i);
            assert(text_map::entries_map(pairs).dom().contains(zones@[i]@));
            assert(text_map::has_key(pairs, zones@[i]@));
            let k = choose|k: int| 0 <= k < pairs.len() && (#[trigger] pairs[k]).0@ == zones@[i]@;
            assert(delays@[k].zone_id@ == zones@[i]@);
        }
        if 0 <= i < delays@.len() && 0 <= j < delays@.len() {
            assert(offset_of(*config, delays@[i].zone_id@) == pairs[i].1);
            assert(offset_of(*config, delays@[j].zone_id@) == pairs[j].1);
        }
        zones_have_their_offsets(*config, zones@, 0);
        assert(text_map::has_key(pairs, zones@[0]@));
        assert(pairs.len() > 0);
        sync::lemma_greatest_is_one(pairs);
        let k = choose|k: int|
            0 <= k < pairs.len() && (#[trigger] pairs[k]).1 == sync::greatest_offset(pairs);
        assert(delays@[k].delay_ms == 0);
    }
}

} // verus!
