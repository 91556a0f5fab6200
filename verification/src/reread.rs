//! The configuration text that the library writes reads back as the
//! configuration it describes.
use vstd::prelude::*;

use crate::config::{
    apply_entries, apply_entry, bool_of, collect_entries, keep_nonempty, string_list_of, unquote, ConfigErrorView, EntryModel, bool_text, classify_line, config_text, flag_setting, global_text, preset_name, quoted_list,
    setting, window_text, BurstWindow, ConfigModel, GlobalConfig, LineKind, Preset,
    chosen_preset, default_targets_model, entries_of, first_preset_entry, is_preset_entry,
    lemma_preset_names_read_back, lemma_presets_are_valid, parse_config_model, preset_model,
};
use crate::text::{
    is_char, is_ws, lemma_scan_back_unique, lemma_scan_to, lemma_scan_to_unique, lines,
    all_digits, decimal, decimal_value, digit_char, digit_value, is_ascii_digit, lines_from,
    non_ws, parse_unsigned, split, split_from, scan_back, scan_to, split_once, strip_cr, trim,
};

verus! {

// ---------------------------------------------------------------------------
// Lines
// ---------------------------------------------------------------------------

/// A line that can stand in a text as it is: no newline in it, and no
/// carriage return at its end.
pub open spec fn plain_line(l: Seq<char>) -> bool {
    &&& forall|k: int| 0 <= k < l.len() ==> l[k] != '\n'
    &&& !(l.len() > 0 && l.last() == '\r')
}

/// The lines, each followed by a newline.
pub open spec fn joined(ls: Seq<Seq<char>>) -> Seq<char>
    decreases ls.len(),
{
    if ls.len() == 0 {
        seq![]
    } else {
        ls[0] + seq!['\n'] + joined(ls.drop_first())
    }
}

proof fn lemma_scan_to_shift(p: Seq<char>, r: Seq<char>, i: int, q: spec_fn(char) -> bool)
    requires
        0 <= i <= r.len(),
    ensures
        scan_to(p + r, p.len() + i, q) == p.len() + scan_to(r, i, q),
    decreases r.len() - i,
{
    if i < r.len() {
        assert((p + r)[p.len() + i] == r[i]);
        if !q(r[i]) {
            lemma_scan_to_shift(p, r, i + 1, q);
        }
    }
}

proof fn lemma_lines_from_shift(p: Seq<char>, r: Seq<char>, i: int)
    requires
        0 <= i,
    ensures
        lines_from(p + r, p.len() + i) == lines_from(r, i),
    decreases r.len() - i,
{
    if i < r.len() {
        lemma_scan_to_shift(p, r, i, is_char('\n'));
        lemma_scan_to(r, i, is_char('\n'));
        let j = scan_to(r, i, is_char('\n'));
        if j < r.len() {
            lemma_lines_from_shift(p, r, j + 1);
            assert((p + r).subrange(p.len() + i, p.len() + j) =~= r.subrange(i, j));
        } else {
            assert((p + r).subrange(p.len() + i, (p + r).len() as int) =~= r.subrange(
                i,
                r.len() as int,
            ));
        }
    }
}

proof fn lemma_lines_cons(l: Seq<char>, rest: Seq<char>)
    requires
        plain_line(l),
    ensures
        lines(l + seq!['\n'] + rest) == seq![l] + lines(rest),
{
    let s = l + seq!['\n'] + rest;
    assert forall|k: int| 0 <= k < l.len() implies !is_char('\n')(#[trigger] s[k]) by {
        assert(s[k] == l[k]);
    }
    lemma_scan_to_unique(s, 0, l.len() as int, is_char('\n'));
    assert(s =~= (l + seq!['\n']) + rest);
    lemma_lines_from_shift(l + seq!['\n'], rest, 0);
    assert(s.subrange(0, l.len() as int) =~= l);
    assert(strip_cr(l) == l);
}

/// Plain lines joined by newlines read back as the same lines.
pub proof fn lemma_lines_of_joined(ls: Seq<Seq<char>>)
    requires
        forall|k: int| 0 <= k < ls.len() ==> plain_line(#[trigger] ls[k]),
    ensures
        lines(joined(ls)) == ls,
    decreases ls.len(),
{
    if ls.len() > 0 {
        assert(plain_line(ls[0]));
        lemma_lines_of_joined(ls.drop_first());
        lemma_lines_cons(ls[0], joined(ls.drop_first()));
        assert(seq![ls[0]] + ls.drop_first() =~= ls);
    }
}

proof fn lemma_joined_append(a: Seq<Seq<char>>, b: Seq<Seq<char>>)
    ensures
        joined(a + b) == joined(a) + joined(b),
    decreases a.len(),
{
    if a.len() == 0 {
        assert(a + b =~= b);
        assert(joined(a) + joined(b) =~= joined(b));
    } else {
        assert((a + b).drop_first() =~= a.drop_first() + b);
        lemma_joined_append(a.drop_first(), b);
        assert((a + b)[0] == a[0]);
        assert(joined(a + b) =~= joined(a) + joined(b));
    }
}

// ---------------------------------------------------------------------------
// Trimming and classifying lines
// ---------------------------------------------------------------------------

/// Text that starts and ends with a character other than whitespace.
pub open spec fn solid(x: Seq<char>) -> bool {
    x.len() > 0 && !is_ws(x[0]) && !is_ws(x.last())
}

pub(crate) proof fn lemma_trim_solid(x: Seq<char>)
    requires
        solid(x),
    ensures
        trim(x) == x,
{
    lemma_scan_to_unique(x, 0, 0, non_ws());
    lemma_scan_back_unique(x, x.len() as int, x.len() as int, non_ws());
    assert(x.subrange(0, x.len() as int) =~= x);
}

proof fn lemma_trim_space_after(x: Seq<char>)
    requires
        solid(x),
    ensures
        trim(x + seq![' ']) == x,
{
    let s = x + seq![' '];
    assert(s[0] == x[0]);
    assert(s[s.len() - 2] == x.last());
    lemma_scan_to_unique(s, 0, 0, non_ws());
    lemma_scan_back_unique(s, s.len() as int, s.len() - 1, non_ws());
    assert(s.subrange(0, s.len() - 1) =~= x);
}

proof fn lemma_trim_space_before(x: Seq<char>)
    requires
        solid(x),
    ensures
        trim(seq![' '] + x) == x,
{
    let s = seq![' '] + x;
    assert(s[1] == x[0]);
    assert(s.last() == x.last());
    lemma_scan_to_unique(s, 0, 1, non_ws());
    lemma_scan_back_unique(s, s.len() as int, s.len() as int, non_ws());
    assert(s.subrange(1, s.len() as int) =~= x);
}

/// A key as the configuration text writes it: solid, without `=`, and not
/// starting like a comment or a section header.
pub open spec fn key_text(k: Seq<char>) -> bool {
    &&& solid(k)
    &&& forall|i: int| 0 <= i < k.len() ==> k[i] != '=' && k[i] != '\n'
    &&& k[0] != '#'
    &&& k[0] != '['
}

/// `key = value`.
pub open spec fn eq_line(key: Seq<char>, value: Seq<char>) -> Seq<char> {
    key + seq![' ', '=', ' '] + value
}

proof fn lemma_classify_eq_line(key: Seq<char>, value: Seq<char>)
    requires
        key_text(key),
        solid(value),
    ensures
        classify_line(eq_line(key, value)) == LineKind::Entry(key, value),
{
    let t = eq_line(key, value);
    assert(t[0] == key[0]);
    assert(t.last() == value.last());
    lemma_trim_solid(t);
    let n = key.len() as int;
    assert forall|k: int| 0 <= k < n + 1 implies !is_char('=')(#[trigger] t[k]) by {
        if k < n {
            assert(t[k] == key[k]);
        }
    }
    assert(t[n + 1] == '=');
    lemma_scan_to_unique(t, 0, n + 1, is_char('='));
    assert(t.subrange(0, n + 1) =~= key + seq![' ']);
    assert(t.subrange(n + 2, t.len() as int) =~= seq![' '] + value);
    lemma_trim_space_after(key);
    lemma_trim_space_before(value);
}

/// `[name]`.
pub open spec fn section_line(name: Seq<char>) -> Seq<char> {
    seq!['['] + name + seq![']']
}

proof fn lemma_classify_section_line(name: Seq<char>)
    requires
        solid(name),
    ensures
        classify_line(section_line(name)) == LineKind::Section(name),
{
    let t = section_line(name);
    lemma_trim_solid(t);
    assert(t.subrange(1, t.len() - 1) =~= name);
    lemma_trim_solid(name);
}

proof fn lemma_classify_comment(l: Seq<char>)
    requires
        solid(l),
        l[0] == '#',
    ensures
        classify_line(l) == LineKind::Skip,
{
    lemma_trim_solid(l);
}

proof fn lemma_classify_empty()
    ensures
        classify_line(Seq::<char>::empty()) == LineKind::Skip,
{
    lemma_scan_to_unique(Seq::<char>::empty(), 0, 0, non_ws());
}

// ---------------------------------------------------------------------------
// The lines of the configuration text
// ---------------------------------------------------------------------------

pub open spec fn setting_line(key: Seq<char>, v: nat) -> Seq<char> {
    eq_line(key, decimal(v))
}

pub open spec fn flag_line(key: Seq<char>, b: bool) -> Seq<char> {
    eq_line(key, bool_text(b))
}

pub open spec fn window_lines(w: BurstWindow) -> Seq<Seq<char>> {
    seq![
        setting_line("burst_secs_min"@, w.burst_secs_min as nat),
        setting_line("burst_secs_max"@, w.burst_secs_max as nat),
        setting_line("rest_secs_min"@, w.rest_secs_min as nat),
        setting_line("rest_secs_max"@, w.rest_secs_max as nat),
    ]
}

pub open spec fn global_lines(g: GlobalConfig) -> Seq<Seq<char>> {
    seq![
        setting_line("check_interval_secs"@, g.check_interval_secs as nat),
        setting_line("interactive_grace_secs"@, g.interactive_grace_secs as nat),
        setting_line("active_tty_idle_secs"@, g.active_tty_idle_secs as nat),
        setting_line("caution_duty_percent"@, g.caution_duty_percent as nat),
        setting_line("caution_load_percent"@, g.caution_load_percent as nat),
        setting_line("pause_load_percent"@, g.pause_load_percent as nat),
        setting_line("caution_mem_available_percent"@, g.caution_mem_available_percent as nat),
        setting_line("pause_mem_available_percent"@, g.pause_mem_available_percent as nat),
    ]
}

pub open spec fn header_lines() -> Seq<Seq<char>> {
    seq![
        "# useless configuration"@,
        "# Edit the values below and run `useless reload` to apply changes."@,
    ]
}

pub open spec fn preset_line(c: ConfigModel) -> Seq<char> {
    eq_line("preset"@, seq!['"'] + preset_name(c.preset) + seq!['"'])
}

pub open spec fn targets_line(ts: Seq<Seq<char>>) -> Seq<char> {
    eq_line("targets"@, seq!['['] + quoted_list(ts) + seq![']'])
}

pub open spec fn opening(name: Seq<char>) -> Seq<Seq<char>> {
    seq![Seq::<char>::empty(), section_line(name)]
}

/// The lines of the configuration text of `c`, block by block.
pub open spec fn text_lines(c: ConfigModel) -> Seq<Seq<char>> {
    header_lines() + seq![preset_line(c)] + global_lines(c.global) + opening("cpu"@) + seq![
        flag_line("enabled"@, c.cpu.enabled),
        setting_line("max_percent"@, c.cpu.max_percent as nat),
    ] + window_lines(c.cpu.window) + opening("memory"@) + seq![
        flag_line("enabled"@, c.memory.enabled),
        setting_line("max_percent"@, c.memory.max_percent as nat),
    ] + window_lines(c.memory.window) + opening("network"@) + seq![
        flag_line("enabled"@, c.network.enabled),
        setting_line("max_mbps"@, c.network.max_mbps as nat),
        setting_line("connect_timeout_secs"@, c.network.connect_timeout_secs as nat),
    ] + window_lines(c.network.window) + seq![targets_line(c.network.targets)]
}

proof fn lemma_setting_text(key: Seq<char>, v: nat)
    ensures
        setting(key, v) == setting_line(key, v) + seq!['\n'],
{
    reveal_strlit(" = ");
    reveal_strlit("\n");
    assert(setting(key, v) =~= setting_line(key, v) + seq!['\n']);
}

proof fn lemma_flag_text(key: Seq<char>, b: bool)
    ensures
        flag_setting(key, b) == flag_line(key, b) + seq!['\n'],
{
    reveal_strlit(" = ");
    reveal_strlit("\n");
    assert(flag_setting(key, b) =~= flag_line(key, b) + seq!['\n']);
}

proof fn lemma_joined_one(a: Seq<char>)
    ensures
        joined(seq![a]) == a + seq!['\n'],
{
    reveal_with_fuel(joined, 2);
    assert(seq![a].drop_first() =~= Seq::<Seq<char>>::empty());
    assert(seq![a][0] == a);
    assert(joined(seq![a]) =~= a + seq!['\n']);
}

#[verifier::spinoff_prover]
#[verifier::rlimit(50)]
proof fn lemma_window_text(w: BurstWindow)
    ensures
        window_text(w) == joined(window_lines(w)),
{
    reveal_with_fuel(joined, 5);
    lemma_setting_text("burst_secs_min"@, w.burst_secs_min as nat);
    lemma_setting_text("burst_secs_max"@, w.burst_secs_max as nat);
    lemma_setting_text("rest_secs_min"@, w.rest_secs_min as nat);
    lemma_setting_text("rest_secs_max"@, w.rest_secs_max as nat);
    let ls = window_lines(w);
    assert(ls.drop_first().drop_first().drop_first().drop_first() =~= Seq::<Seq<char>>::empty());
    assert(window_text(w) =~= joined(ls));
}

#[verifier::spinoff_prover]
#[verifier::rlimit(50)]
proof fn lemma_global_text(g: GlobalConfig)
    ensures
        global_text(g) == joined(global_lines(g)),
{
    reveal_with_fuel(joined, 9);
    lemma_setting_text("check_interval_secs"@, g.check_interval_secs as nat);
    lemma_setting_text("interactive_grace_secs"@, g.interactive_grace_secs as nat);
    lemma_setting_text("active_tty_idle_secs"@, g.active_tty_idle_secs as nat);
    lemma_setting_text("caution_duty_percent"@, g.caution_duty_percent as nat);
    lemma_setting_text("caution_load_percent"@, g.caution_load_percent as nat);
    lemma_setting_text("pause_load_percent"@, g.pause_load_percent as nat);
    lemma_setting_text("caution_mem_available_percent"@, g.caution_mem_available_percent as nat);
    lemma_setting_text("pause_mem_available_percent"@, g.pause_mem_available_percent as nat);
    let ls = global_lines(g);
    assert(ls.drop_first().drop_first().drop_first().drop_first().drop_first().drop_first().drop_first().drop_first() =~= Seq::<Seq<char>>::empty());
    assert(global_text(g) =~= joined(ls));
}

#[verifier::spinoff_prover]
#[verifier::rlimit(50)]
proof fn lemma_header_text()
    ensures
        "# useless configuration\n# Edit the values below and run `useless reload` to apply changes.\n"@
            == joined(header_lines()),
{
    reveal_with_fuel(joined, 3);
    reveal_strlit(
        "# useless configuration\n# Edit the values below and run `useless reload` to apply changes.\n",
    );
    reveal_strlit("# useless configuration");
    reveal_strlit("# Edit the values below and run `useless reload` to apply changes.");
    let ls = header_lines();
    assert(ls.drop_first().drop_first() =~= Seq::<Seq<char>>::empty());
    assert("# useless configuration\n# Edit the values below and run `useless reload` to apply changes.\n"@
        =~= joined(ls));
}

proof fn lemma_preset_text(c: ConfigModel)
    ensures
        "preset = \""@ + preset_name(c.preset) + "\"\n"@ == joined(seq![preset_line(c)]),
{
    lemma_joined_one(preset_line(c));
    reveal_strlit("preset = \"");
    reveal_strlit("\"\n");
    reveal_strlit("preset");
    assert("preset = \""@ + preset_name(c.preset) + "\"\n"@ =~= preset_line(c) + seq!['\n']);
}

proof fn lemma_targets_text(ts: Seq<Seq<char>>)
    ensures
        "targets = ["@ + quoted_list(ts) + "]\n"@ == joined(seq![targets_line(ts)]),
{
    lemma_joined_one(targets_line(ts));
    reveal_strlit("targets = [");
    reveal_strlit("]\n");
    reveal_strlit("targets");
    assert("targets = ["@ + quoted_list(ts) + "]\n"@ =~= targets_line(ts) + seq!['\n']);
}

proof fn lemma_opening_cpu()
    ensures
        "\n[cpu]\n"@ == joined(opening("cpu"@)),
{
    reveal_with_fuel(joined, 3);
    reveal_strlit("\n[cpu]\n");
    reveal_strlit("cpu");
    let ls = opening("cpu"@);
    assert(ls.drop_first().drop_first() =~= Seq::<Seq<char>>::empty());
    assert("\n[cpu]\n"@ =~= joined(ls));
}

proof fn lemma_opening_memory()
    ensures
        "\n[memory]\n"@ == joined(opening("memory"@)),
{
    reveal_with_fuel(joined, 3);
    reveal_strlit("\n[memory]\n");
    reveal_strlit("memory");
    let ls = opening("memory"@);
    assert(ls.drop_first().drop_first() =~= Seq::<Seq<char>>::empty());
    assert("\n[memory]\n"@ =~= joined(ls));
}

proof fn lemma_opening_network()
    ensures
        "\n[network]\n"@ == joined(opening("network"@)),
{
    reveal_with_fuel(joined, 3);
    reveal_strlit("\n[network]\n");
    reveal_strlit("network");
    let ls = opening("network"@);
    assert(ls.drop_first().drop_first() =~= Seq::<Seq<char>>::empty());
    assert("\n[network]\n"@ =~= joined(ls));
}

proof fn lemma_two_lines(a: Seq<char>, b: Seq<char>)
    ensures
        joined(seq![a, b]) == a + seq!['\n'] + (b + seq!['\n']),
{
    reveal_with_fuel(joined, 3);
    let ls = seq![a, b];
    assert(ls.drop_first().drop_first() =~= Seq::<Seq<char>>::empty());
    assert(ls.drop_first() =~= seq![b]);
    assert(joined(ls) =~= a + seq!['\n'] + (b + seq!['\n']));
}

proof fn lemma_three_lines(a: Seq<char>, b: Seq<char>, d: Seq<char>)
    ensures
        joined(seq![a, b, d]) == a + seq!['\n'] + (b + seq!['\n']) + (d + seq!['\n']),
{
    reveal_with_fuel(joined, 4);
    let ls = seq![a, b, d];
    assert(ls.drop_first().drop_first().drop_first() =~= Seq::<Seq<char>>::empty());
    assert(ls.drop_first() =~= seq![b, d]);
    assert(ls.drop_first().drop_first() =~= seq![d]);
    assert(joined(ls) =~= a + seq!['\n'] + (b + seq!['\n']) + (d + seq!['\n']));
}

/// The configuration text is its lines, each followed by a newline.
#[verifier::spinoff_prover]
#[verifier::rlimit(100)]
proof fn lemma_config_text_is_joined(c: ConfigModel)
    ensures
        config_text(c) == joined(text_lines(c)),
{
    let b1 = header_lines();
    let b2 = seq![preset_line(c)];
    let b3 = global_lines(c.global);
    let b4 = opening("cpu"@);
    let b5 = seq![flag_line("enabled"@, c.cpu.enabled), setting_line("max_percent"@, c.cpu.max_percent as nat)];
    let b6 = window_lines(c.cpu.window);
    let b7 = opening("memory"@);
    let b8 = seq![flag_line("enabled"@, c.memory.enabled), setting_line("max_percent"@, c.memory.max_percent as nat)];
    let b9 = window_lines(c.memory.window);
    let b10 = opening("network"@);
    let b11 = seq![
        flag_line("enabled"@, c.network.enabled),
        setting_line("max_mbps"@, c.network.max_mbps as nat),
        setting_line("connect_timeout_secs"@, c.network.connect_timeout_secs as nat),
    ];
    let b12 = window_lines(c.network.window);
    let b13 = seq![targets_line(c.network.targets)];
    let p2 = b1 + b2;
    let p3 = p2 + b3;
    let p4 = p3 + b4;
    let p5 = p4 + b5;
    let p6 = p5 + b6;
    let p7 = p6 + b7;
    let p8 = p7 + b8;
    let p9 = p8 + b9;
    let p10 = p9 + b10;
    let p11 = p10 + b11;
    let p12 = p11 + b12;
    let p13 = p12 + b13;
    assert(text_lines(c) == p13);
    let h = "# useless configuration\n# Edit the values below and run `useless reload` to apply changes.\n"@;
    let e2 = h + "preset = \""@ + preset_name(c.preset) + "\"\n"@;
    let e3 = e2 + global_text(c.global);
    let e4 = e3 + "\n[cpu]\n"@;
    let e5 = e4 + flag_setting("enabled"@, c.cpu.enabled) + setting(
        "max_percent"@,
        c.cpu.max_percent as nat,
    );
    let e6 = e5 + window_text(c.cpu.window);
    let e7 = e6 + "\n[memory]\n"@;
    let e8 = e7 + flag_setting("enabled"@, c.memory.enabled) + setting(
        "max_percent"@,
        c.memory.max_percent as nat,
    );
    let e9 = e8 + window_text(c.memory.window);
    let e10 = e9 + "\n[network]\n"@;
    let e11 = e10 + flag_setting("enabled"@, c.network.enabled) + setting(
        "max_mbps"@,
        c.network.max_mbps as nat,
    ) + setting("connect_timeout_secs"@, c.network.connect_timeout_secs as nat);
    let e12 = e11 + window_text(c.network.window);
    let e13 = e12 + "targets = ["@ + quoted_list(c.network.targets) + "]\n"@;
    assert(joined(p2) =~= e2) by {
        lemma_joined_append(b1, b2);
        lemma_header_text();
        lemma_preset_text(c);
    }
    assert(joined(p3) == e3) by {
        lemma_joined_append(p2, b3);
        lemma_global_text(c.global);
    }
    assert(joined(p4) == e4) by {
        lemma_joined_append(p3, b4);
        lemma_opening_cpu();
    }
    assert(joined(p5) =~= e5) by {
        lemma_joined_append(p4, b5);
        lemma_two_lines(b5[0], b5[1]);
        lemma_flag_text("enabled"@, c.cpu.enabled);
        lemma_setting_text("max_percent"@, c.cpu.max_percent as nat);
    }
    assert(joined(p6) == e6) by {
        lemma_joined_append(p5, b6);
        lemma_window_text(c.cpu.window);
    }
    assert(joined(p7) == e7) by {
        lemma_joined_append(p6, b7);
        lemma_opening_memory();
    }
    assert(joined(p8) =~= e8) by {
        lemma_joined_append(p7, b8);
        lemma_two_lines(b8[0], b8[1]);
        lemma_flag_text("enabled"@, c.memory.enabled);
        lemma_setting_text("max_percent"@, c.memory.max_percent as nat);
    }
    assert(joined(p9) == e9) by {
        lemma_joined_append(p8, b9);
        lemma_window_text(c.memory.window);
    }
    assert(joined(p10) == e10) by {
        lemma_joined_append(p9, b10);
        lemma_opening_network();
    }
    assert(joined(p11) =~= e11) by {
        lemma_joined_append(p10, b11);
        lemma_three_lines(b11[0], b11[1], b11[2]);
        lemma_flag_text("enabled"@, c.network.enabled);
        lemma_setting_text("max_mbps"@, c.network.max_mbps as nat);
        lemma_setting_text("connect_timeout_secs"@, c.network.connect_timeout_secs as nat);
    }
    assert(joined(p12) == e12) by {
        lemma_joined_append(p11, b12);
        lemma_window_text(c.network.window);
    }
    assert(joined(p13) =~= e13) by {
        lemma_joined_append(p12, b13);
        lemma_targets_text(c.network.targets);
    }
    assert(config_text(c) == e13);
}

// ---------------------------------------------------------------------------
// Numbers
// ---------------------------------------------------------------------------

/// The decimal digits of `n` are one or more digits that denote `n`.
pub proof fn lemma_decimal_reads_back(n: nat)
    ensures
        decimal(n).len() > 0,
        all_digits(decimal(n)),
        decimal_value(decimal(n)) == n,
    decreases n,
{
    if n >= 10 {
        lemma_decimal_reads_back(n / 10);
        let d = decimal(n / 10);
        let e = d.push(digit_char((n % 10) as nat));
        assert(e.drop_last() =~= d);
        assert(digit_value(digit_char((n % 10) as nat)) == n % 10);
        assert(forall|i: int| 0 <= i < d.len() ==> e[i] == d[i]);
        assert(e.last() == digit_char((n % 10) as nat));
        assert(decimal_value(e) == decimal_value(d) * 10 + digit_value(e.last()));
        assert(decimal(n) == e);
        assert((n / 10) * 10 + n % 10 == n) by (nonlinear_arith);
    } else {
        assert(digit_value(digit_char(n)) == n);
        assert(seq![digit_char(n)].drop_last() =~= Seq::<char>::empty());
        assert(decimal_value(Seq::<char>::empty()) == 0);
        assert(decimal_value(seq![digit_char(n)]) == n);
    }
}

/// A number written in decimal reads back as that number.
pub proof fn lemma_decimal_parses(n: nat, max: nat)
    requires
        n <= max,
    ensures
        parse_unsigned(decimal(n), max) == Some(n),
        solid(decimal(n)),
        forall|i: int| 0 <= i < decimal(n).len() ==> is_ascii_digit(#[trigger] decimal(n)[i]),
{
    lemma_decimal_reads_back(n);
    let d = decimal(n);
    assert(is_ascii_digit(d[0]));
    assert(is_ascii_digit(d.last()));
}

// ---------------------------------------------------------------------------
// Reading lines that a configuration already satisfies
// ---------------------------------------------------------------------------

/// Entry `key = value` in section `sec`, with no line number.
pub open spec fn entry_at(sec: Option<Seq<char>>, key: Seq<char>, value: Seq<char>) -> EntryModel {
    EntryModel { section: sec, key, value, line_number: 0 }
}

/// Lines from `i` on, read in section `sec`: each is skipped, opens a
/// section, or is an entry that `c` already satisfies.
pub open spec fn lines_keep(ls: Seq<Seq<char>>, i: int, sec: Option<Seq<char>>, c: ConfigModel) -> bool
    decreases ls.len() - i,
{
    if i < 0 || i >= ls.len() {
        true
    } else {
        match classify_line(ls[i]) {
            LineKind::Skip => lines_keep(ls, i + 1, sec, c),
            LineKind::Section(n) => lines_keep(ls, i + 1, Some(n), c),
            LineKind::Entry(k, v) => apply_entry(c, entry_at(sec, k, v)) == Ok::<
                ConfigModel,
                ConfigErrorView,
            >(c) && lines_keep(ls, i + 1, sec, c),
            LineKind::Invalid(_) => false,
        }
    }
}

/// The section in force after lines `i..`.
pub open spec fn section_after(ls: Seq<Seq<char>>, i: int, sec: Option<Seq<char>>) -> Option<
    Seq<char>,
>
    decreases ls.len() - i,
{
    if i < 0 || i >= ls.len() {
        sec
    } else {
        match classify_line(ls[i]) {
            LineKind::Section(n) => section_after(ls, i + 1, Some(n)),
            _ => section_after(ls, i + 1, sec),
        }
    }
}

proof fn lemma_line_number_irrelevant(c: ConfigModel, e: EntryModel, n: nat)
    requires
        apply_entry(c, e) is Ok,
    ensures
        apply_entry(c, EntryModel { line_number: n, ..e }) == apply_entry(c, e),
{
}

proof fn lemma_keep_shift(a: Seq<Seq<char>>, b: Seq<Seq<char>>, i: int, sec: Option<Seq<char>>, c: ConfigModel)
    requires
        0 <= i,
    ensures
        lines_keep(a + b, a.len() + i, sec, c) == lines_keep(b, i, sec, c),
    decreases b.len() - i,
{
    if i < b.len() {
        assert((a + b)[a.len() + i] == b[i]);
        match classify_line(b[i]) {
            LineKind::Section(n) => lemma_keep_shift(a, b, i + 1, Some(n), c),
            _ => lemma_keep_shift(a, b, i + 1, sec, c),
        }
    }
}

proof fn lemma_keep_concat_from(
    a: Seq<Seq<char>>,
    b: Seq<Seq<char>>,
    i: int,
    sec: Option<Seq<char>>,
    c: ConfigModel,
)
    requires
        0 <= i <= a.len(),
        lines_keep(a, i, sec, c),
        lines_keep(b, 0, section_after(a, i, sec), c),
    ensures
        lines_keep(a + b, i, sec, c),
    decreases a.len() - i,
{
    if i < a.len() {
        assert((a + b)[i] == a[i]);
        match classify_line(a[i]) {
            LineKind::Section(n) => lemma_keep_concat_from(a, b, i + 1, Some(n), c),
            _ => lemma_keep_concat_from(a, b, i + 1, sec, c),
        }
    } else {
        lemma_keep_shift(a, b, 0, sec, c);
    }
}

/// Two blocks of lines that `c` satisfies, the second read in the section
/// that the first leaves.
proof fn lemma_keep_concat(a: Seq<Seq<char>>, b: Seq<Seq<char>>, sec: Option<Seq<char>>, c: ConfigModel)
    requires
        lines_keep(a, 0, sec, c),
        lines_keep(b, 0, section_after(a, 0, sec), c),
    ensures
        lines_keep(a + b, 0, sec, c),
        section_after(a + b, 0, sec) == section_after(b, 0, section_after(a, 0, sec)),
{
    lemma_keep_concat_from(a, b, 0, sec, c);
    lemma_section_after_concat(a, b, 0, sec);
}

proof fn lemma_section_after_shift(a: Seq<Seq<char>>, b: Seq<Seq<char>>, i: int, sec: Option<Seq<char>>)
    requires
        0 <= i,
    ensures
        section_after(a + b, a.len() + i, sec) == section_after(b, i, sec),
    decreases b.len() - i,
{
    if i < b.len() {
        assert((a + b)[a.len() + i] == b[i]);
        match classify_line(b[i]) {
            LineKind::Section(n) => lemma_section_after_shift(a, b, i + 1, Some(n)),
            _ => lemma_section_after_shift(a, b, i + 1, sec),
        }
    }
}

proof fn lemma_section_after_concat(a: Seq<Seq<char>>, b: Seq<Seq<char>>, i: int, sec: Option<Seq<char>>)
    requires
        0 <= i <= a.len(),
    ensures
        section_after(a + b, i, sec) == section_after(b, 0, section_after(a, i, sec)),
    decreases a.len() - i,
{
    if i < a.len() {
        assert((a + b)[i] == a[i]);
        match classify_line(a[i]) {
            LineKind::Section(n) => lemma_section_after_concat(a, b, i + 1, Some(n)),
            _ => lemma_section_after_concat(a, b, i + 1, sec),
        }
    } else {
        lemma_section_after_shift(a, b, 0, sec);
    }
}

/// Collecting entries from lines that `c` satisfies succeeds, keeps what was
/// collected before, and gives only entries that `c` satisfies.
proof fn lemma_collect_kept(
    ls: Seq<Seq<char>>,
    i: int,
    sec: Option<Seq<char>>,
    acc: Seq<EntryModel>,
    c: ConfigModel,
)
    requires
        0 <= i,
        lines_keep(ls, i, sec, c),
        forall|k: int| 0 <= k < acc.len() ==> apply_entry(c, #[trigger] acc[k]) == Ok::<
            ConfigModel,
            ConfigErrorView,
        >(c),
    ensures
        collect_entries(ls, i, sec, acc) is Ok,
        collect_entries(ls, i, sec, acc)->Ok_0.len() >= acc.len(),
        collect_entries(ls, i, sec, acc)->Ok_0.subrange(0, acc.len() as int) == acc,
        forall|k: int|
            0 <= k < collect_entries(ls, i, sec, acc)->Ok_0.len() ==> apply_entry(
                c,
                #[trigger] collect_entries(ls, i, sec, acc)->Ok_0[k],
            ) == Ok::<ConfigModel, ConfigErrorView>(c),
    decreases ls.len() - i,
{
    if i < ls.len() {
        match classify_line(ls[i]) {
            LineKind::Skip => lemma_collect_kept(ls, i + 1, sec, acc, c),
            LineKind::Section(n) => lemma_collect_kept(ls, i + 1, Some(n), acc, c),
            LineKind::Entry(k, v) => {
                let e = EntryModel { section: sec, key: k, value: v, line_number: (i + 1) as nat };
                lemma_line_number_irrelevant(c, entry_at(sec, k, v), (i + 1) as nat);
                assert(EntryModel { line_number: (i + 1) as nat, ..entry_at(sec, k, v) } == e);
                let acc2 = acc.push(e);
                assert forall|m: int| 0 <= m < acc2.len() implies apply_entry(c, #[trigger] acc2[m])
                    == Ok::<ConfigModel, ConfigErrorView>(c) by {
                    if m < acc.len() {
                        assert(acc2[m] == acc[m]);
                    }
                }
                lemma_collect_kept(ls, i + 1, sec, acc2, c);
                let r = collect_entries(ls, i + 1, sec, acc2)->Ok_0;
                assert(r.subrange(0, acc.len() as int) =~= r.subrange(0, acc2.len() as int).subrange(
                    0,
                    acc.len() as int,
                ));
                assert(acc2.subrange(0, acc.len() as int) =~= acc);
            },
            LineKind::Invalid(_) => {},
        }
    }
}

/// Entries that `c` satisfies, applied in order, leave `c` as it is.
proof fn lemma_apply_kept(c: ConfigModel, es: Seq<EntryModel>, i: int)
    requires
        0 <= i,
        forall|k: int| 0 <= k < es.len() ==> apply_entry(c, #[trigger] es[k]) == Ok::<
            ConfigModel,
            ConfigErrorView,
        >(c),
    ensures
        apply_entries(c, es, i) == Ok::<ConfigModel, ConfigErrorView>(c),
    decreases es.len() - i,
{
    if i < es.len() {
        assert(apply_entry(c, es[i]) == Ok::<ConfigModel, ConfigErrorView>(c));
        lemma_apply_kept(c, es, i + 1);
    }
}

// ---------------------------------------------------------------------------
// The blocks of the configuration text
// ---------------------------------------------------------------------------

proof fn lemma_number_line(key: Seq<char>, v: nat, max: nat)
    requires
        key_text(key),
        v <= max,
    ensures
        classify_line(setting_line(key, v)) == LineKind::Entry(key, decimal(v)),
        parse_unsigned(trim(decimal(v)), max) == Some(v),
{
    lemma_decimal_parses(v, max);
    lemma_trim_solid(decimal(v));
    lemma_classify_eq_line(key, decimal(v));
}

proof fn lemma_flag_line(key: Seq<char>, b: bool)
    requires
        key_text(key),
    ensures
        classify_line(flag_line(key, b)) == LineKind::Entry(key, bool_text(b)),
        bool_of(bool_text(b)) == Some(b),
{
    reveal_strlit("true");
    reveal_strlit("false");
    assert(solid(bool_text(b)));
    lemma_trim_solid(bool_text(b));
    lemma_classify_eq_line(key, bool_text(b));
    assert("true"@ != "false"@) by {
        assert("true"@.len() != "false"@.len());
    }
}

proof fn lemma_global_keys()
    ensures
        key_text("check_interval_secs"@),
        key_text("interactive_grace_secs"@),
        key_text("active_tty_idle_secs"@),
        key_text("caution_duty_percent"@),
        key_text("caution_load_percent"@),
        key_text("pause_load_percent"@),
        key_text("caution_mem_available_percent"@),
        key_text("pause_mem_available_percent"@),
        "preset"@.len() == 6,
        "check_interval_secs"@.len() == 19,
        "interactive_grace_secs"@.len() == 22,
        "active_tty_idle_secs"@.len() == 20,
        "caution_duty_percent"@.len() == 20,
        "caution_load_percent"@.len() == 20,
        "pause_load_percent"@.len() == 18,
        "caution_mem_available_percent"@.len() == 29,
        "pause_mem_available_percent"@.len() == 27,
        "active_tty_idle_secs"@[0] != "caution_duty_percent"@[0],
        "active_tty_idle_secs"@[0] != "caution_load_percent"@[0],
        "caution_duty_percent"@[8] != "caution_load_percent"@[8],
{
    reveal_strlit("preset");
    reveal_strlit("check_interval_secs");
    reveal_strlit("interactive_grace_secs");
    reveal_strlit("active_tty_idle_secs");
    reveal_strlit("caution_duty_percent");
    reveal_strlit("caution_load_percent");
    reveal_strlit("pause_load_percent");
    reveal_strlit("caution_mem_available_percent");
    reveal_strlit("pause_mem_available_percent");
}

#[verifier::spinoff_prover]
#[verifier::rlimit(50)]
proof fn lemma_global_block(c: ConfigModel)
    ensures
        lines_keep(global_lines(c.global), 0, None, c),
        section_after(global_lines(c.global), 0, None) == None::<Seq<char>>,
{
    let g = c.global;
    lemma_global_keys();
    lemma_number_line("check_interval_secs"@, g.check_interval_secs as nat, u64::MAX as nat);
    lemma_number_line("interactive_grace_secs"@, g.interactive_grace_secs as nat, u64::MAX as nat);
    lemma_number_line("active_tty_idle_secs"@, g.active_tty_idle_secs as nat, u64::MAX as nat);
    lemma_number_line("caution_duty_percent"@, g.caution_duty_percent as nat, u8::MAX as nat);
    lemma_number_line("caution_load_percent"@, g.caution_load_percent as nat, u8::MAX as nat);
    lemma_number_line("pause_load_percent"@, g.pause_load_percent as nat, u8::MAX as nat);
    lemma_number_line(
        "caution_mem_available_percent"@,
        g.caution_mem_available_percent as nat,
        u8::MAX as nat,
    );
    lemma_number_line(
        "pause_mem_available_percent"@,
        g.pause_mem_available_percent as nat,
        u8::MAX as nat,
    );
    let ls = global_lines(g);
    assert(apply_entry(c, entry_at(None, "check_interval_secs"@, decimal(g.check_interval_secs as nat)))
        == Ok::<ConfigModel, ConfigErrorView>(c));
    assert(apply_entry(c, entry_at(None, "interactive_grace_secs"@, decimal(g.interactive_grace_secs as nat)))
        == Ok::<ConfigModel, ConfigErrorView>(c));
    assert(apply_entry(c, entry_at(None, "active_tty_idle_secs"@, decimal(g.active_tty_idle_secs as nat)))
        == Ok::<ConfigModel, ConfigErrorView>(c));
    assert(apply_entry(c, entry_at(None, "caution_duty_percent"@, decimal(g.caution_duty_percent as nat)))
        == Ok::<ConfigModel, ConfigErrorView>(c));
    assert(apply_entry(c, entry_at(None, "caution_load_percent"@, decimal(g.caution_load_percent as nat)))
        == Ok::<ConfigModel, ConfigErrorView>(c));
    assert(apply_entry(c, entry_at(None, "pause_load_percent"@, decimal(g.pause_load_percent as nat)))
        == Ok::<ConfigModel, ConfigErrorView>(c));
    assert(apply_entry(c, entry_at(None, "caution_mem_available_percent"@, decimal(g.caution_mem_available_percent as nat)))
        == Ok::<ConfigModel, ConfigErrorView>(c));
    assert(apply_entry(c, entry_at(None, "pause_mem_available_percent"@, decimal(g.pause_mem_available_percent as nat)))
        == Ok::<ConfigModel, ConfigErrorView>(c));
    reveal_with_fuel(lines_keep, 9);
    reveal_with_fuel(section_after, 9);
}

proof fn lemma_module_words()
    ensures
        key_text("enabled"@),
        key_text("max_percent"@),
        key_text("max_mbps"@),
        key_text("connect_timeout_secs"@),
        key_text("targets"@),
        key_text("preset"@),
        key_text("burst_secs_min"@),
        key_text("burst_secs_max"@),
        key_text("rest_secs_min"@),
        key_text("rest_secs_max"@),
        solid("cpu"@),
        solid("memory"@),
        solid("network"@),
        "cpu"@ != "memory"@,
        "cpu"@ != "network"@,
        "memory"@ != "network"@,
        "enabled"@ != "max_percent"@,
        "enabled"@ != "max_mbps"@,
        "enabled"@ != "connect_timeout_secs"@,
        "max_mbps"@ != "connect_timeout_secs"@,
        "burst_secs_min"@ != "burst_secs_max"@,
        "burst_secs_min"@ != "rest_secs_min"@,
        "burst_secs_min"@ != "rest_secs_max"@,
        "burst_secs_max"@ != "rest_secs_min"@,
        "burst_secs_max"@ != "rest_secs_max"@,
        "rest_secs_min"@ != "rest_secs_max"@,
        !crate::config::is_window_key("enabled"@),
        !crate::config::is_window_key("max_percent"@),
        !crate::config::is_window_key("max_mbps"@),
        !crate::config::is_window_key("connect_timeout_secs"@),
        !crate::config::is_window_key("targets"@),
{
    reveal_strlit("enabled");
    reveal_strlit("max_percent");
    reveal_strlit("max_mbps");
    reveal_strlit("connect_timeout_secs");
    reveal_strlit("targets");
    reveal_strlit("preset");
    reveal_strlit("burst_secs_min");
    reveal_strlit("burst_secs_max");
    reveal_strlit("rest_secs_min");
    reveal_strlit("rest_secs_max");
    reveal_strlit("cpu");
    reveal_strlit("memory");
    reveal_strlit("network");
    assert("burst_secs_min"@[12] != "burst_secs_max"@[12]);
    assert("rest_secs_min"@[11] != "rest_secs_max"@[11]);
    assert("burst_secs_min"@.len() != "rest_secs_min"@.len());
    assert("max_mbps"@.len() != "connect_timeout_secs"@.len());
    assert("enabled"@.len() != "max_percent"@.len());
    assert("enabled"@.len() != "max_mbps"@.len());
    assert("enabled"@.len() != "connect_timeout_secs"@.len());
    assert("cpu"@.len() != "memory"@.len());
    assert("cpu"@.len() != "network"@.len());
    assert("memory"@.len() != "network"@.len());
    assert("targets"@.len() != "burst_secs_min"@.len());
    assert("targets"@.len() != "rest_secs_min"@.len());
}

#[verifier::spinoff_prover]
#[verifier::rlimit(50)]
proof fn lemma_window_block(c: ConfigModel, sec: Seq<char>, w: BurstWindow)
    requires
        sec == "cpu"@ ==> w == c.cpu.window,
        sec == "memory"@ ==> w == c.memory.window,
        sec == "network"@ ==> w == c.network.window,
        sec == "cpu"@ || sec == "memory"@ || sec == "network"@,
    ensures
        lines_keep(window_lines(w), 0, Some(sec), c),
        section_after(window_lines(w), 0, Some(sec)) == Some(sec),
{
    lemma_module_words();
    lemma_number_line("burst_secs_min"@, w.burst_secs_min as nat, u64::MAX as nat);
    lemma_number_line("burst_secs_max"@, w.burst_secs_max as nat, u64::MAX as nat);
    lemma_number_line("rest_secs_min"@, w.rest_secs_min as nat, u64::MAX as nat);
    lemma_number_line("rest_secs_max"@, w.rest_secs_max as nat, u64::MAX as nat);
    assert(apply_entry(c, entry_at(Some(sec), "burst_secs_min"@, decimal(w.burst_secs_min as nat)))
        == Ok::<ConfigModel, ConfigErrorView>(c));
    assert(apply_entry(c, entry_at(Some(sec), "burst_secs_max"@, decimal(w.burst_secs_max as nat)))
        == Ok::<ConfigModel, ConfigErrorView>(c));
    assert(apply_entry(c, entry_at(Some(sec), "rest_secs_min"@, decimal(w.rest_secs_min as nat)))
        == Ok::<ConfigModel, ConfigErrorView>(c));
    assert(apply_entry(c, entry_at(Some(sec), "rest_secs_max"@, decimal(w.rest_secs_max as nat)))
        == Ok::<ConfigModel, ConfigErrorView>(c));
    reveal_with_fuel(lines_keep, 5);
    reveal_with_fuel(section_after, 5);
}

proof fn lemma_opening_block(name: Seq<char>, sec: Option<Seq<char>>, c: ConfigModel)
    requires
        solid(name),
    ensures
        lines_keep(opening(name), 0, sec, c),
        section_after(opening(name), 0, sec) == Some(name),
{
    lemma_classify_empty();
    lemma_classify_section_line(name);
    reveal_with_fuel(lines_keep, 3);
    reveal_with_fuel(section_after, 3);
}

pub open spec fn cpu_head(c: ConfigModel) -> Seq<Seq<char>> {
    seq![
        flag_line("enabled"@, c.cpu.enabled),
        setting_line("max_percent"@, c.cpu.max_percent as nat),
    ]
}

pub open spec fn memory_head(c: ConfigModel) -> Seq<Seq<char>> {
    seq![
        flag_line("enabled"@, c.memory.enabled),
        setting_line("max_percent"@, c.memory.max_percent as nat),
    ]
}

pub open spec fn network_head(c: ConfigModel) -> Seq<Seq<char>> {
    seq![
        flag_line("enabled"@, c.network.enabled),
        setting_line("max_mbps"@, c.network.max_mbps as nat),
        setting_line("connect_timeout_secs"@, c.network.connect_timeout_secs as nat),
    ]
}

proof fn lemma_cpu_head(c: ConfigModel)
    ensures
        lines_keep(cpu_head(c), 0, Some("cpu"@), c),
        section_after(cpu_head(c), 0, Some("cpu"@)) == Some("cpu"@),
{
    lemma_module_words();
    lemma_flag_line("enabled"@, c.cpu.enabled);
    lemma_number_line("max_percent"@, c.cpu.max_percent as nat, u8::MAX as nat);
    assert(apply_entry(c, entry_at(Some("cpu"@), "enabled"@, bool_text(c.cpu.enabled)))
        == Ok::<ConfigModel, ConfigErrorView>(c));
    assert(apply_entry(c, entry_at(Some("cpu"@), "max_percent"@, decimal(c.cpu.max_percent as nat)))
        == Ok::<ConfigModel, ConfigErrorView>(c));
    reveal_with_fuel(lines_keep, 3);
    reveal_with_fuel(section_after, 3);
}

proof fn lemma_memory_head(c: ConfigModel)
    ensures
        lines_keep(memory_head(c), 0, Some("memory"@), c),
        section_after(memory_head(c), 0, Some("memory"@)) == Some("memory"@),
{
    lemma_module_words();
    lemma_flag_line("enabled"@, c.memory.enabled);
    lemma_number_line("max_percent"@, c.memory.max_percent as nat, u8::MAX as nat);
    assert(apply_entry(c, entry_at(Some("memory"@), "enabled"@, bool_text(c.memory.enabled)))
        == Ok::<ConfigModel, ConfigErrorView>(c));
    assert(apply_entry(c, entry_at(Some("memory"@), "max_percent"@, decimal(c.memory.max_percent as nat)))
        == Ok::<ConfigModel, ConfigErrorView>(c));
    reveal_with_fuel(lines_keep, 3);
    reveal_with_fuel(section_after, 3);
}

proof fn lemma_network_head(c: ConfigModel)
    ensures
        lines_keep(network_head(c), 0, Some("network"@), c),
        section_after(network_head(c), 0, Some("network"@)) == Some("network"@),
{
    lemma_module_words();
    lemma_flag_line("enabled"@, c.network.enabled);
    lemma_number_line("max_mbps"@, c.network.max_mbps as nat, u32::MAX as nat);
    lemma_number_line(
        "connect_timeout_secs"@,
        c.network.connect_timeout_secs as nat,
        u64::MAX as nat,
    );
    assert(apply_entry(c, entry_at(Some("network"@), "enabled"@, bool_text(c.network.enabled)))
        == Ok::<ConfigModel, ConfigErrorView>(c));
    assert(apply_entry(c, entry_at(Some("network"@), "max_mbps"@, decimal(c.network.max_mbps as nat)))
        == Ok::<ConfigModel, ConfigErrorView>(c));
    assert(apply_entry(
        c,
        entry_at(Some("network"@), "connect_timeout_secs"@, decimal(c.network.connect_timeout_secs as nat)),
    ) == Ok::<ConfigModel, ConfigErrorView>(c));
    reveal_with_fuel(lines_keep, 4);
    reveal_with_fuel(section_after, 4);
}

// ---------------------------------------------------------------------------
// The list of targets
// ---------------------------------------------------------------------------

/// A target in double quotes.
pub open spec fn quoted(t: Seq<char>) -> Seq<char> {
    seq!['"'] + t + seq!['"']
}

/// Targets that the list syntax carries as they are: at least one, each
/// non-empty, without commas or newlines.
pub open spec fn clean_targets(ts: Seq<Seq<char>>) -> bool {
    &&& ts.len() > 0
    &&& forall|k: int|
        0 <= k < ts.len() ==> (#[trigger] ts[k]).len() > 0 && (forall|i: int|
            0 <= i < ts[k].len() ==> ts[k][i] != ',' && ts[k][i] != '\n')
}

proof fn lemma_quoted_list_one(t: Seq<char>)
    ensures
        quoted_list(seq![t]) == quoted(t),
{
    reveal_strlit("\"");
    assert(seq![t][0] == t);
    assert(quoted_list(seq![t]) =~= quoted(t));
}

proof fn lemma_quoted_list_cons(ts: Seq<Seq<char>>)
    requires
        ts.len() >= 2,
    ensures
        quoted_list(ts) == quoted(ts[0]) + seq![',', ' '] + quoted_list(ts.drop_first()),
    decreases ts.len(),
{
    reveal_strlit("\"");
    reveal_strlit(", ");
    if ts.len() == 2 {
        let a = ts.drop_last();
        assert(a =~= seq![ts[0]]);
        lemma_quoted_list_one(ts[0]);
        assert(ts.drop_first() =~= seq![ts[1]]);
        lemma_quoted_list_one(ts[1]);
        assert(quoted_list(ts) =~= quoted(ts[0]) + seq![',', ' '] + quoted_list(ts.drop_first()));
    } else {
        lemma_quoted_list_cons(ts.drop_last());
        assert(ts.drop_last().drop_first() =~= ts.drop_first().drop_last());
        assert(ts.drop_last()[0] == ts[0]);
        assert(ts.drop_first().last() == ts.last());
        assert(quoted_list(ts) =~= quoted(ts[0]) + seq![',', ' '] + quoted_list(ts.drop_first()));
    }
}

proof fn lemma_split_from_shift(p: Seq<char>, r: Seq<char>, c: char, i: int)
    requires
        0 <= i,
    ensures
        split_from(p + r, c, p.len() + i) == split_from(r, c, i),
    decreases r.len() + 1 - i,
{
    if i <= r.len() {
        lemma_scan_to_shift(p, r, i, is_char(c));
        lemma_scan_to(r, i, is_char(c));
        let j = scan_to(r, i, is_char(c));
        if j < r.len() {
            lemma_split_from_shift(p, r, c, j + 1);
            assert((p + r).subrange(p.len() + i, p.len() + j) =~= r.subrange(i, j));
        } else {
            assert((p + r).subrange(p.len() + i, (p + r).len() as int) =~= r.subrange(
                i,
                r.len() as int,
            ));
        }
    }
}

pub(crate) proof fn lemma_split_single(a: Seq<char>, c: char)
    requires
        forall|k: int| 0 <= k < a.len() ==> a[k] != c,
    ensures
        split(a, c) == seq![a],
{
    lemma_scan_to_unique(a, 0, a.len() as int, is_char(c));
    assert(a.subrange(0, a.len() as int) =~= a);
}

pub(crate) proof fn lemma_split_cons(a: Seq<char>, c: char, rest: Seq<char>)
    requires
        forall|k: int| 0 <= k < a.len() ==> a[k] != c,
    ensures
        split(a + seq![c] + rest, c) == seq![a] + split(rest, c),
{
    let s = a + seq![c] + rest;
    assert forall|k: int| 0 <= k < a.len() implies !is_char(c)(#[trigger] s[k]) by {
        assert(s[k] == a[k]);
    }
    lemma_scan_to_unique(s, 0, a.len() as int, is_char(c));
    assert(s =~= (a + seq![c]) + rest);
    lemma_split_from_shift(a + seq![c], rest, c, 0);
    assert(s.subrange(0, a.len() as int) =~= a);
}

/// The pieces that splitting `pre` followed by a quoted list at its commas gives.
pub open spec fn list_pieces(pre: Seq<char>, ts: Seq<Seq<char>>) -> Seq<Seq<char>> {
    Seq::new(
        ts.len(),
        |k: int|
            if k == 0 {
                pre + quoted(ts[0])
            } else {
                seq![' '] + quoted(ts[k])
            },
    )
}

proof fn lemma_split_quoted(pre: Seq<char>, ts: Seq<Seq<char>>)
    requires
        clean_targets(ts),
        forall|k: int| 0 <= k < pre.len() ==> pre[k] != ',',
    ensures
        split(pre + quoted_list(ts), ',') == list_pieces(pre, ts),
    decreases ts.len(),
{
    let t0 = ts[0];
    let a = pre + quoted(t0);
    assert(ts[0] == t0);
    assert forall|k: int| 0 <= k < a.len() implies a[k] != ',' by {
        if k >= pre.len() && k > pre.len() && k < a.len() - 1 {
            assert(a[k] == t0[k - pre.len() - 1]);
        }
    }
    if ts.len() == 1 {
        lemma_quoted_list_one(t0);
        lemma_split_single(a, ',');
        assert(pre + quoted_list(ts) =~= a);
        assert(list_pieces(pre, ts) =~= seq![a]);
    } else {
        lemma_quoted_list_cons(ts);
        let rest = ts.drop_first();
        assert(clean_targets(rest)) by {
            assert forall|k: int| 0 <= k < rest.len() implies (#[trigger] rest[k]).len() > 0
                && (forall|i: int| 0 <= i < rest[k].len() ==> rest[k][i] != ',' && rest[k][i] != '\n') by {
                assert(rest[k] == ts[k + 1]);
            }
        }
        lemma_split_quoted(seq![' '], rest);
        assert(pre + quoted_list(ts) =~= a + seq![','] + (seq![' '] + quoted_list(rest)));
        lemma_split_cons(a, ',', seq![' '] + quoted_list(rest));
        assert(seq![a] + list_pieces(seq![' '], rest) =~= list_pieces(pre, ts));
    }
}

proof fn lemma_unquote_piece(pre: Seq<char>, t: Seq<char>)
    requires
        pre == Seq::<char>::empty() || pre == seq![' '],
    ensures
        unquote(pre + quoted(t)) == t,
{
    let q = quoted(t);
    assert(solid(q));
    if pre.len() == 0 {
        assert(pre + q =~= q);
        lemma_trim_solid(q);
    } else {
        assert(pre + q =~= seq![' '] + q);
        lemma_trim_space_before(q);
    }
    assert(q.subrange(1, q.len() - 1) =~= t);
}

proof fn lemma_keep_nonempty_all(ts: Seq<Seq<char>>)
    requires
        forall|k: int| 0 <= k < ts.len() ==> (#[trigger] ts[k]).len() > 0,
    ensures
        keep_nonempty(ts) == ts,
    decreases ts.len(),
{
    if ts.len() > 0 {
        lemma_keep_nonempty_all(ts.drop_last());
        assert(ts.drop_last().push(ts.last()) =~= ts);
    }
}

/// A list of clean targets, written in the list syntax, reads back as the
/// same targets.
proof fn lemma_targets_read_back(ts: Seq<Seq<char>>)
    requires
        clean_targets(ts),
    ensures
        string_list_of(seq!['['] + quoted_list(ts) + seq![']']) == Some(ts),
        solid(seq!['['] + quoted_list(ts) + seq![']']),
{
    let ql = quoted_list(ts);
    let v = seq!['['] + ql + seq![']'];
    assert(solid(v));
    lemma_trim_solid(v);
    assert(v.subrange(1, v.len() - 1) =~= ql);
    if ts.len() == 1 {
        lemma_quoted_list_one(ts[0]);
    } else {
        lemma_quoted_list_cons(ts);
    }
    assert(ql[0] == '"');
    assert(ql.last() == '"') by {
        if ts.len() == 1 {
        } else {
            let r = ts.drop_first();
            lemma_quoted_list_last(r);
        }
    }
    assert(solid(ql));
    lemma_trim_solid(ql);
    assert(Seq::<char>::empty() + ql =~= ql);
    lemma_split_quoted(Seq::<char>::empty(), ts);
    let pieces = list_pieces(Seq::<char>::empty(), ts);
    let un = pieces.map_values(|p: Seq<char>| unquote(p));
    assert forall|k: int| 0 <= k < ts.len() implies un[k] == ts[k] by {
        if k == 0 {
            lemma_unquote_piece(Seq::<char>::empty(), ts[0]);
        } else {
            lemma_unquote_piece(seq![' '], ts[k]);
        }
    }
    assert(un =~= ts);
    lemma_keep_nonempty_all(ts);
}

proof fn lemma_quoted_list_last(ts: Seq<Seq<char>>)
    requires
        ts.len() > 0,
    ensures
        quoted_list(ts).len() > 0,
        quoted_list(ts).last() == '"',
{
    reveal_strlit("\"");
    if ts.len() == 1 {
        lemma_quoted_list_one(ts[0]);
    }
}

proof fn lemma_targets_line(c: ConfigModel)
    requires
        clean_targets(c.network.targets),
    ensures
        lines_keep(seq![targets_line(c.network.targets)], 0, Some("network"@), c),
        section_after(seq![targets_line(c.network.targets)], 0, Some("network"@)) == Some(
            "network"@,
        ),
{
    let ts = c.network.targets;
    let v = seq!['['] + quoted_list(ts) + seq![']'];
    lemma_module_words();
    reveal_strlit("enabled");
    reveal_strlit("targets");
    reveal_strlit("max_mbps");
    reveal_strlit("connect_timeout_secs");
    assert("enabled"@[0] != "targets"@[0]);
    assert("max_mbps"@.len() != "targets"@.len());
    assert("connect_timeout_secs"@.len() != "targets"@.len());
    lemma_targets_read_back(ts);
    lemma_classify_eq_line("targets"@, v);
    assert(apply_entry(c, entry_at(Some("network"@), "targets"@, v)) == Ok::<
        ConfigModel,
        ConfigErrorView,
    >(c));
    reveal_with_fuel(lines_keep, 2);
    reveal_with_fuel(section_after, 2);
}

// ---------------------------------------------------------------------------
// The lines are plain
// ---------------------------------------------------------------------------

proof fn lemma_eq_line_plain(key: Seq<char>, value: Seq<char>)
    requires
        key_text(key),
        value.len() > 0,
        value.last() != '\r',
        forall|i: int| 0 <= i < value.len() ==> value[i] != '\n',
    ensures
        plain_line(eq_line(key, value)),
{
    let l = eq_line(key, value);
    assert forall|k: int| 0 <= k < l.len() implies l[k] != '\n' by {
        if k < key.len() {
            assert(l[k] == key[k]);
        } else if k >= key.len() + 3 {
            assert(l[k] == value[k - key.len() - 3]);
        }
    }
}

proof fn lemma_number_line_plain(key: Seq<char>, v: nat)
    requires
        key_text(key),
    ensures
        plain_line(setting_line(key, v)),
{
    lemma_decimal_parses(v, v);
    lemma_eq_line_plain(key, decimal(v));
}

proof fn lemma_flag_line_plain(key: Seq<char>, b: bool)
    requires
        key_text(key),
    ensures
        plain_line(flag_line(key, b)),
{
    reveal_strlit("true");
    reveal_strlit("false");
    lemma_eq_line_plain(key, bool_text(b));
}

proof fn lemma_window_plain(w: BurstWindow)
    ensures
        forall|k: int| 0 <= k < window_lines(w).len() ==> plain_line(#[trigger] window_lines(w)[k]),
{
    lemma_module_words();
    lemma_number_line_plain("burst_secs_min"@, w.burst_secs_min as nat);
    lemma_number_line_plain("burst_secs_max"@, w.burst_secs_max as nat);
    lemma_number_line_plain("rest_secs_min"@, w.rest_secs_min as nat);
    lemma_number_line_plain("rest_secs_max"@, w.rest_secs_max as nat);
}

#[verifier::spinoff_prover]
#[verifier::rlimit(50)]
proof fn lemma_global_plain(g: GlobalConfig)
    ensures
        forall|k: int| 0 <= k < global_lines(g).len() ==> plain_line(#[trigger] global_lines(g)[k]),
{
    lemma_global_keys();
    lemma_number_line_plain("check_interval_secs"@, g.check_interval_secs as nat);
    lemma_number_line_plain("interactive_grace_secs"@, g.interactive_grace_secs as nat);
    lemma_number_line_plain("active_tty_idle_secs"@, g.active_tty_idle_secs as nat);
    lemma_number_line_plain("caution_duty_percent"@, g.caution_duty_percent as nat);
    lemma_number_line_plain("caution_load_percent"@, g.caution_load_percent as nat);
    lemma_number_line_plain("pause_load_percent"@, g.pause_load_percent as nat);
    lemma_number_line_plain("caution_mem_available_percent"@, g.caution_mem_available_percent as nat);
    lemma_number_line_plain("pause_mem_available_percent"@, g.pause_mem_available_percent as nat);
}

proof fn lemma_section_plain(name: Seq<char>)
    requires
        forall|i: int| 0 <= i < name.len() ==> name[i] != '\n',
    ensures
        forall|k: int| 0 <= k < opening(name).len() ==> plain_line(#[trigger] opening(name)[k]),
{
    let l = section_line(name);
    assert forall|k: int| 0 <= k < l.len() implies l[k] != '\n' by {
        if 0 < k < l.len() - 1 {
            assert(l[k] == name[k - 1]);
        }
    }
    assert(plain_line(opening(name)[0]));
    assert(plain_line(opening(name)[1]));
}

proof fn lemma_quoted_list_no_newline(ts: Seq<Seq<char>>)
    requires
        clean_targets(ts),
    ensures
        forall|i: int| 0 <= i < quoted_list(ts).len() ==> quoted_list(ts)[i] != '\n',
    decreases ts.len(),
{
    let t0 = ts[0];
    let q = quoted(t0);
    assert(ts[0] == t0);
    assert forall|i: int| 0 <= i < q.len() implies q[i] != '\n' by {
        if 0 < i < q.len() - 1 {
            assert(q[i] == t0[i - 1]);
        }
    }
    if ts.len() == 1 {
        lemma_quoted_list_one(t0);
    } else {
        lemma_quoted_list_cons(ts);
        let rest = ts.drop_first();
        assert(clean_targets(rest)) by {
            assert forall|k: int| 0 <= k < rest.len() implies (#[trigger] rest[k]).len() > 0
                && (forall|i: int| 0 <= i < rest[k].len() ==> rest[k][i] != ',' && rest[k][i] != '\n') by {
                assert(rest[k] == ts[k + 1]);
            }
        }
        lemma_quoted_list_no_newline(rest);
        let ql = quoted_list(ts);
        let r = quoted_list(rest);
        assert forall|i: int| 0 <= i < ql.len() implies ql[i] != '\n' by {
            if i < q.len() {
                assert(ql[i] == q[i]);
            } else if i >= q.len() + 2 {
                assert(ql[i] == r[i - q.len() - 2]);
            }
        }
    }
}

proof fn lemma_preset_names()
    ensures
        forall|p: Preset|
            #![trigger preset_name(p)]
            preset_name(p).len() > 0 && (forall|i: int|
                0 <= i < preset_name(p).len() ==> preset_name(p)[i] != '\n'),
{
    reveal_strlit("low");
    reveal_strlit("balanced");
    reveal_strlit("aggressive");
}

/// Every line of the configuration text of a configuration with clean
/// targets is plain.
proof fn lemma_text_lines_plain(c: ConfigModel)
    requires
        clean_targets(c.network.targets),
    ensures
        forall|k: int| 0 <= k < text_lines(c).len() ==> plain_line(#[trigger] text_lines(c)[k]),
{
    let ls = text_lines(c);
    reveal_strlit("# useless configuration");
    reveal_strlit("# Edit the values below and run `useless reload` to apply changes.");
    reveal_strlit("cpu");
    reveal_strlit("memory");
    reveal_strlit("network");
    lemma_module_words();
    lemma_preset_names();
    let name = preset_name(c.preset);
    assert(preset_name(c.preset).len() > 0);
    lemma_eq_line_plain("preset"@, seq!['"'] + name + seq!['"']);
    lemma_global_plain(c.global);
    lemma_section_plain("cpu"@);
    lemma_section_plain("memory"@);
    lemma_section_plain("network"@);
    lemma_flag_line_plain("enabled"@, c.cpu.enabled);
    lemma_flag_line_plain("enabled"@, c.memory.enabled);
    lemma_flag_line_plain("enabled"@, c.network.enabled);
    lemma_number_line_plain("max_percent"@, c.cpu.max_percent as nat);
    lemma_number_line_plain("max_percent"@, c.memory.max_percent as nat);
    lemma_number_line_plain("max_mbps"@, c.network.max_mbps as nat);
    lemma_number_line_plain("connect_timeout_secs"@, c.network.connect_timeout_secs as nat);
    lemma_window_plain(c.cpu.window);
    lemma_window_plain(c.memory.window);
    lemma_window_plain(c.network.window);
    lemma_quoted_list_no_newline(c.network.targets);
    let v = seq!['['] + quoted_list(c.network.targets) + seq![']'];
    assert forall|i: int| 0 <= i < v.len() implies v[i] != '\n' by {
        if 0 < i < v.len() - 1 {
            assert(v[i] == quoted_list(c.network.targets)[i - 1]);
        }
    }
    lemma_eq_line_plain("targets"@, v);
    assert(plain_line(header_lines()[0]));
    assert(plain_line(header_lines()[1]));
    assert forall|k: int| 0 <= k < ls.len() implies plain_line(#[trigger] ls[k]) by {
        if k < 3 {
        } else if k < 11 {
            assert(ls[k] == global_lines(c.global)[k - 3]);
        } else if k < 13 {
            assert(ls[k] == opening("cpu"@)[k - 11]);
        } else if k < 15 {
        } else if k < 19 {
            assert(ls[k] == window_lines(c.cpu.window)[k - 15]);
        } else if k < 21 {
            assert(ls[k] == opening("memory"@)[k - 19]);
        } else if k < 23 {
        } else if k < 27 {
            assert(ls[k] == window_lines(c.memory.window)[k - 23]);
        } else if k < 29 {
            assert(ls[k] == opening("network"@)[k - 27]);
        } else if k < 32 {
        } else if k < 36 {
            assert(ls[k] == window_lines(c.network.window)[k - 32]);
        }
    }
}

// ---------------------------------------------------------------------------
// Reading the text back
// ---------------------------------------------------------------------------

proof fn lemma_default_targets_clean()
    ensures
        clean_targets(default_targets_model()),
{
    reveal_strlit("http://mirror.nl.leaseweb.net/speedtest/10000mb.bin");
    reveal_strlit("http://mirror.dal10.us.leaseweb.net/speedtest/10000mb.bin");
    reveal_strlit("http://mirror.hk.leaseweb.net/speedtest/10000mb.bin");
    reveal_strlit("http://mirror.de.leaseweb.net/speedtest/10000mb.bin");
    reveal_strlit("http://proof.ovh.net/files/10Gio.dat");
    let ts = default_targets_model();
    assert forall|k: int| 0 <= k < ts.len() implies (#[trigger] ts[k]).len() > 0 && (forall|i: int|
        0 <= i < ts[k].len() ==> ts[k][i] != ',' && ts[k][i] != '\n') by {
        if k == 0 {
        } else if k == 1 {
        } else if k == 2 {
        } else if k == 3 {
        } else {
        }
    }
}

pub open spec fn text_tail(c: ConfigModel) -> Seq<Seq<char>> {
    global_lines(c.global) + opening("cpu"@) + cpu_head(c) + window_lines(c.cpu.window) + opening(
        "memory"@,
    ) + memory_head(c) + window_lines(c.memory.window) + opening("network"@) + network_head(c)
        + window_lines(c.network.window) + seq![targets_line(c.network.targets)]
}

/// `c` satisfies every line of its text after the preset line.
#[verifier::spinoff_prover]
#[verifier::rlimit(50)]
proof fn lemma_tail_kept(c: ConfigModel)
    requires
        clean_targets(c.network.targets),
    ensures
        lines_keep(text_tail(c), 0, None, c),
{
    lemma_module_words();
    let none = None::<Seq<char>>;
    let b1 = global_lines(c.global);
    let b2 = opening("cpu"@);
    let b3 = cpu_head(c);
    let b4 = window_lines(c.cpu.window);
    let b5 = opening("memory"@);
    let b6 = memory_head(c);
    let b7 = window_lines(c.memory.window);
    let b8 = opening("network"@);
    let b9 = network_head(c);
    let b10 = window_lines(c.network.window);
    let b11 = seq![targets_line(c.network.targets)];
    lemma_global_block(c);
    lemma_opening_block("cpu"@, none, c);
    lemma_keep_concat(b1, b2, none, c);
    let p2 = b1 + b2;
    lemma_cpu_head(c);
    lemma_keep_concat(p2, b3, none, c);
    let p3 = p2 + b3;
    lemma_window_block(c, "cpu"@, c.cpu.window);
    lemma_keep_concat(p3, b4, none, c);
    let p4 = p3 + b4;
    lemma_opening_block("memory"@, Some("cpu"@), c);
    lemma_keep_concat(p4, b5, none, c);
    let p5 = p4 + b5;
    lemma_memory_head(c);
    lemma_keep_concat(p5, b6, none, c);
    let p6 = p5 + b6;
    lemma_window_block(c, "memory"@, c.memory.window);
    lemma_keep_concat(p6, b7, none, c);
    let p7 = p6 + b7;
    lemma_opening_block("network"@, Some("memory"@), c);
    lemma_keep_concat(p7, b8, none, c);
    let p8 = p7 + b8;
    lemma_network_head(c);
    lemma_keep_concat(p8, b9, none, c);
    let p9 = p8 + b9;
    lemma_window_block(c, "network"@, c.network.window);
    lemma_keep_concat(p9, b10, none, c);
    let p10 = p9 + b10;
    lemma_targets_line(c);
    lemma_keep_concat(p10, b11, none, c);
    assert(text_tail(c) == p10 + b11);
}

/// The configuration text that each preset is written as reads back as
/// that preset.
#[verifier::spinoff_prover]
#[verifier::rlimit(50)]
pub proof fn lemma_preset_text_reads_back(p: Preset)
    ensures
        parse_config_model(config_text(preset_model(p))) == Ok::<ConfigModel, ConfigErrorView>(
            preset_model(p),
        ),
{
    let c = preset_model(p);
    lemma_default_targets_clean();
    assert(c.network.targets == default_targets_model());
    lemma_config_text_is_joined(c);
    lemma_text_lines_plain(c);
    lemma_lines_of_joined(text_lines(c));
    let ls = text_lines(c);
    assert(lines(config_text(c)) == ls);
    let h1 = "# useless configuration"@;
    let h2 = "# Edit the values below and run `useless reload` to apply changes."@;
    reveal_strlit("# useless configuration");
    reveal_strlit("# Edit the values below and run `useless reload` to apply changes.");
    lemma_classify_comment(h1);
    lemma_classify_comment(h2);
    lemma_module_words();
    let name = preset_name(p);
    let pv = seq!['"'] + name + seq!['"'];
    assert(solid(pv));
    lemma_classify_eq_line("preset"@, pv);
    let head3 = header_lines() + seq![preset_line(c)];
    let tail = text_tail(c);
    assert(ls =~= head3 + tail);
    assert(ls[0] == h1);
    assert(ls[1] == h2);
    assert(ls[2] == preset_line(c));
    let e0 = EntryModel { section: None, key: "preset"@, value: pv, line_number: 3 };
    reveal_with_fuel(collect_entries, 4);
    assert(collect_entries(ls, 0, None, seq![]) == collect_entries(ls, 3, None, seq![e0]));
    lemma_tail_kept(c);
    assert(head3.len() == 3);
    lemma_keep_shift(head3, tail, 0, None, c);
    assert(apply_entry(c, e0) == Ok::<ConfigModel, ConfigErrorView>(c));
    assert(seq![e0][0] == e0);
    lemma_collect_kept(ls, 3, None, seq![e0], c);
    let es = collect_entries(ls, 3, None, seq![e0])->Ok_0;
    assert(es.subrange(0, 1) == seq![e0]);
    assert(es[0] == es.subrange(0, 1)[0]);
    assert(entries_of(config_text(c)) == Ok::<Seq<EntryModel>, ConfigErrorView>(es));
    assert(is_preset_entry(e0));
    assert(first_preset_entry(es, 0) == Some(e0));
    assert(Seq::<char>::empty() + quoted(name) =~= pv);
    lemma_unquote_piece(Seq::<char>::empty(), name);
    lemma_preset_names_read_back(p);
    assert(chosen_preset(es) == Ok::<Preset, ConfigErrorView>(p));
    lemma_apply_kept(c, es, 0);
    lemma_presets_are_valid(p);
}

/// The default configuration text reads back as the balanced preset, the
/// default configuration.
pub proof fn lemma_default_text_reads_back()
    ensures
        parse_config_model(config_text(preset_model(Preset::Balanced))) == Ok::<
            ConfigModel,
            ConfigErrorView,
        >(preset_model(Preset::Balanced)),
{
    lemma_preset_text_reads_back(Preset::Balanced);
}

} // verus!
