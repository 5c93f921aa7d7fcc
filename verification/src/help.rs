//! The `--help` output: usage, discovered account sections with secrets redacted,
//! and the global policy defaults.
use vstd::prelude::*;
use vstd::string::*;

use crate::env::EnvMap;
use crate::text::{
    contains_str, ends_with_str, has_infix, has_prefix, has_suffix, insert_sorted_unique, owned,
    starts_with_str, strictly_sorted, string_of_range, strings_view, to_upper, upper, chars_of,
};

verus! {

/// Whether the argument list asks for help (`--help` or `-h` anywhere).
pub fn should_print_help(args: &[&str]) -> (r: bool)
    ensures
        r == exists|i: int|
            0 <= i < args@.len() && (#[trigger] args@[i]@ == "--help"@ || args@[i]@ == "-h"@),
{
    let help_long = String::from_str("--help");
    let help_short = String::from_str("-h");
    let mut i: usize = 0;
    while i < args.len()
        invariant
            i <= args@.len(),
            help_long@ == "--help"@,
            help_short@ == "-h"@,
            forall|k: int|
                0 <= k < i ==> !(#[trigger] args@[k]@ == "--help"@ || args@[k]@ == "-h"@),
        decreases args.len() - i,
    {
        let a = String::from_str(args[i]);
        if a == help_long || a == help_short {
            return true;
        }
        i = i + 1;
    }
    false
}

/// A variable name that holds a secret: its upper-case form contains `PASS`, `SECRET`
/// or `TOKEN`.
pub open spec fn secret_key(key: Seq<char>) -> bool {
    has_infix(upper(key), "PASS"@) || has_infix(upper(key), "SECRET"@) || has_infix(
        upper(key),
        "TOKEN"@,
    )
}

/// Whether a variable name holds a secret, ignoring ASCII case.
pub fn is_secret_key(key: &str) -> (r: bool)
    ensures
        r == secret_key(key@),
{
    let k = to_upper(key);
    contains_str(k.as_str(), "PASS") || contains_str(k.as_str(), "SECRET") || contains_str(
        k.as_str(),
        "TOKEN",
    )
}

/// How a variable's value is shown in the help output.
pub open spec fn redacted(key: Seq<char>, value: Option<Seq<char>>) -> Seq<char> {
    match value {
        Some(v) => if secret_key(key) && v.len() > 0 {
            "<redacted>"@
        } else if v.len() == 0 {
            "<empty>"@
        } else {
            v
        },
        None => "<unset>"@,
    }
}

/// Law: the help output shows the value of a secret variable only as `<redacted>`,
/// whatever the value is.
pub proof fn lemma_secret_values_redacted(key: Seq<char>, value: Seq<char>)
    requires
        secret_key(key),
        value.len() > 0,
    ensures
        redacted(key, Some(value)) == "<redacted>"@,
{
}

/// The view of an optional string slice.
pub open spec fn opt_str_view(value: Option<&str>) -> Option<Seq<char>> {
    match value {
        Some(v) => Some(v@),
        None => None,
    }
}

/// Shows a variable's value: secrets as `<redacted>`, an empty value as `<empty>`, an
/// unset variable as `<unset>`, and any other value as it is.
pub fn redact_value(key: &str, value: Option<&str>) -> (r: String)
    ensures
        r@ == redacted(key@, opt_str_view(value)),
{
    match value {
        Some(v) => {
            if is_secret_key(key) && !v.is_empty() {
                String::from_str("<redacted>")
            } else if v.is_empty() {
                String::from_str("<empty>")
            } else {
                owned(v)
            }
        },
        None => String::from_str("<unset>"),
    }
}

/// The per-section variable suffixes, in the order they are tried.
pub open spec fn section_suffix(i: int) -> Seq<char> {
    if i == 0 {
        "_HOST"@
    } else if i == 1 {
        "_USER"@
    } else if i == 2 {
        "_PASS"@
    } else if i == 3 {
        "_PORT"@
    } else {
        "_SECURE"@
    }
}

/// The section named by a remainder after `MAIL_IMAP_`, trying suffixes from `i` on.
pub open spec fn section_from(rem: Seq<char>, i: int) -> Option<Seq<char>>
    decreases 5 - i,
{
    if i >= 5 || i < 0 {
        None
    } else if has_suffix(rem, section_suffix(i)) && rem.len() > section_suffix(i).len() {
        Some(rem.subrange(0, rem.len() - section_suffix(i).len()))
    } else {
        section_from(rem, i + 1)
    }
}

/// The suffixes differ in their last characters, so a name ends with at most one of them.
proof fn lemma_one_suffix(rem: Seq<char>, i: int, j: int)
    requires
        0 <= j < i < 5,
        has_suffix(rem, section_suffix(i)),
    ensures
        !has_suffix(rem, section_suffix(j)),
{
    reveal_strlit("_HOST");
    reveal_strlit("_USER");
    reveal_strlit("_PASS");
    reveal_strlit("_PORT");
    reveal_strlit("_SECURE");
    let si = section_suffix(i);
    let sj = section_suffix(j);
    if has_suffix(rem, sj) {
        assert(rem[rem.len() - 2] == si[si.len() - 2]);
        assert(rem[rem.len() - 2] == sj[sj.len() - 2]);
        assert(rem[rem.len() - 1] == si[si.len() - 1]);
        assert(rem[rem.len() - 1] == sj[sj.len() - 1]);
        assert(rem[rem.len() - 5] == si[si.len() - 5]);
        assert(rem[rem.len() - 5] == sj[sj.len() - 5]);
    }
}

/// What `section_from` finds from suffix `i` on: a non-empty name and the first suffix
/// from `i` on that the remainder ends with.
proof fn lemma_section_from(rem: Seq<char>, i: int, s: Seq<char>)
    requires
        0 <= i <= 5,
    ensures
        section_from(rem, i) == Some(s) <==> (s.len() > 0 && exists|j: int|
            i <= j < 5 && rem == s + #[trigger] section_suffix(j)),
    decreases 5 - i,
{
    if i < 5 {
        lemma_section_from(rem, i + 1, s);
        let suf = section_suffix(i);
        if has_suffix(rem, suf) && rem.len() > suf.len() {
            let found = rem.subrange(0, rem.len() - suf.len());
            assert(rem =~= found + suf);
            if s.len() > 0 && exists|j: int| i <= j < 5 && rem == s + #[trigger] section_suffix(j) {
                let j = choose|j: int| i <= j < 5 && rem == s + #[trigger] section_suffix(j);
                if j > i {
                    assert(has_suffix(rem, section_suffix(j))) by {
                        assert(rem.subrange(
                            rem.len() - section_suffix(j).len(),
                            rem.len() as int,
                        ) =~= section_suffix(j));
                    }
                    lemma_one_suffix(rem, j, i);
                }
                assert(s =~= found);
            }
        } else {
            if s.len() > 0 && rem == s + suf {
                assert(rem.subrange(rem.len() - suf.len(), rem.len() as int) =~= suf);
            }
        }
    }
}

/// Law: a variable name belongs to section `s` exactly when it is `MAIL_IMAP_`, the
/// non-empty `s`, and one of the suffixes `_HOST`, `_USER`, `_PASS`, `_PORT`, `_SECURE`.
pub proof fn lemma_section_of_names(key: Seq<char>, s: Seq<char>)
    ensures
        section_of(key) == Some(s) <==> (s.len() > 0 && exists|j: int|
            0 <= j < 5 && key == "MAIL_IMAP_"@ + s + #[trigger] section_suffix(j)),
{
    reveal_strlit("MAIL_IMAP_");
    let p = "MAIL_IMAP_"@;
    let rem = key.subrange(10, key.len() as int);
    lemma_section_from(rem, 0, s);
    if has_prefix(key, p) {
        assert(key =~= p + rem);
        if exists|j: int| 0 <= j < 5 && key == p + s + #[trigger] section_suffix(j) {
            let j = choose|j: int| 0 <= j < 5 && key == p + s + #[trigger] section_suffix(j);
            assert(rem =~= s + section_suffix(j));
        }
        if exists|j: int| 0 <= j < 5 && rem == s + #[trigger] section_suffix(j) {
            let j = choose|j: int| 0 <= j < 5 && rem == s + #[trigger] section_suffix(j);
            assert(key =~= p + s + section_suffix(j));
        }
    } else {
        if exists|j: int| 0 <= j < 5 && key == p + s + #[trigger] section_suffix(j) {
            let j = choose|j: int| 0 <= j < 5 && key == p + s + #[trigger] section_suffix(j);
            assert(key.subrange(0, 10) =~= p);
        }
    }
}

/// Whether `env` sets a variable of section `s`: `s` is non-empty and some
/// `MAIL_IMAP_<s>_{HOST,USER,PASS,PORT,SECURE}` is set, whatever its value.
pub open spec fn names_section(env: Map<Seq<char>, Seq<char>>, s: Seq<char>) -> bool {
    s.len() > 0 && exists|j: int|
        0 <= j < 5 && env.contains_key("MAIL_IMAP_"@ + s + #[trigger] section_suffix(j))
}

/// Law: the sections discovered in `env` are exactly the non-empty names `s` for which
/// some `MAIL_IMAP_<s>_{HOST,USER,PASS,PORT,SECURE}` is set; the values play no part.
pub proof fn lemma_sections_by_suffix(env: Map<Seq<char>, Seq<char>>, s: Seq<char>)
    ensures
        sections_of(env).contains(s) <==> names_section(env, s),
{
    if sections_of(env).contains(s) {
        let k = choose|k: Seq<char>| env.contains_key(k) && section_of(k) == Some(s);
        lemma_section_of_names(k, s);
        let j = choose|j: int| 0 <= j < 5 && k == "MAIL_IMAP_"@ + s + #[trigger] section_suffix(j);
        assert(env.contains_key("MAIL_IMAP_"@ + s + section_suffix(j)));
    }
    if names_section(env, s) {
        let j = choose|j: int|
            0 <= j < 5 && env.contains_key("MAIL_IMAP_"@ + s + #[trigger] section_suffix(j));
        let k = "MAIL_IMAP_"@ + s + section_suffix(j);
        lemma_section_of_names(k, s);
        assert(env.contains_key(k) && section_of(k) == Some(s));
    }
}

/// The account section a variable name belongs to: `MAIL_IMAP_<section>_<SUFFIX>` with a
/// non-empty section, for the first suffix of `_HOST`, `_USER`, `_PASS`, `_PORT`,
/// `_SECURE` that fits.
pub open spec fn section_of(key: Seq<char>) -> Option<Seq<char>> {
    if has_prefix(key, "MAIL_IMAP_"@) {
        section_from(key.subrange(10, key.len() as int), 0)
    } else {
        None
    }
}

/// The section of `key`, if it names one.
fn section_of_key(key: &str) -> (r: Option<String>)
    ensures
        r matches Some(s) ==> section_of(key@) == Some(s@),
        r is None ==> section_of(key@) is None,
{
    if !starts_with_str(key, "MAIL_IMAP_") {
        return None;
    }
    let v = chars_of(key);
    proof {
        reveal_strlit("MAIL_IMAP_");
    }
    let rem = string_of_range(v.as_slice(), 10, v.len());
    let ghost remv = key@.subrange(10, key@.len() as int);
    assert(rem@ == remv);
    assert(section_of(key@) == section_from(remv, 0));
    let suffixes = ["_HOST", "_USER", "_PASS", "_PORT", "_SECURE"];
    let mut i: usize = 0;
    while i < 5
        invariant
            i <= 5,
            rem@ == remv,
            section_of(key@) == section_from(remv, 0),
            suffixes@.len() == 5,
            forall|k: int| 0 <= k < 5 ==> (#[trigger] suffixes@[k])@ == section_suffix(k),
            section_from(remv, 0) == section_from(remv, i as int),
        decreases 5 - i,
    {
        let suffix = suffixes[i];
        let sv = chars_of(suffix);
        let rv = chars_of(rem.as_str());
        if ends_with_str(rem.as_str(), suffix) && rv.len() > sv.len() {
            let sec = string_of_range(rv.as_slice(), 0, rv.len() - sv.len());
            proof {
                assert(suffix@ == section_suffix(i as int));
            }
            return Some(sec);
        }
        i = i + 1;
    }
    None
}

/// The sections named by the variables of `env`, sorted by name without duplicates.
pub open spec fn sections_of(env: Map<Seq<char>, Seq<char>>) -> Set<Seq<char>> {
    Set::new(|s: Seq<char>| exists|k: Seq<char>| env.contains_key(k) && section_of(k) == Some(s))
}

/// Discover account sections from variable names of the form
/// `MAIL_IMAP_<section>_{HOST,USER,PASS,PORT,SECURE}`, sorted and without duplicates.
pub fn discover_account_sections(env_map: &EnvMap) -> (r: Vec<String>)
    ensures
        strictly_sorted(strings_view(r@)),
        strings_view(r@).to_set() == sections_of(env_map@),
{
    let keys = env_map.keys();
    let mut sections: Vec<String> = Vec::new();
    let mut i: usize = 0;
    while i < keys.len()
        invariant
            i <= keys@.len(),
            strings_view(keys@).to_set() == env_map@.dom(),
            strictly_sorted(strings_view(sections@)),
            strings_view(sections@).to_set() == Set::new(
                |s: Seq<char>|
                    exists|k: int| 0 <= k < i && section_of(keys@[k]@) == Some(s),
            ),
        decreases keys.len() - i,
    {
        let ghost before = strings_view(sections@).to_set();
        match section_of_key(keys[i].as_str()) {
            Some(sec) => {
                let ghost sv = sec@;
                insert_sorted_unique(&mut sections, sec);
                proof {
                    assert(strings_view(sections@).to_set() =~= Set::new(
                        |s: Seq<char>|
                            exists|k: int| 0 <= k < i + 1 && section_of(keys@[k]@) == Some(s),
                    )) by {
                        assert forall|s: Seq<char>|
                            (exists|k: int| 0 <= k < i + 1 && section_of(keys@[k]@) == Some(s))
                                <==> before.insert(sv).contains(s) by {
                            if s == sv {
                                assert(section_of(keys@[i as int]@) == Some(s));
                            }
                            if exists|k: int| 0 <= k < i + 1 && section_of(keys@[k]@) == Some(s) {
                                let k = choose|k: int|
                                    0 <= k < i + 1 && section_of(keys@[k]@) == Some(s);
                                if k < i {
                                    assert(before.contains(s));
                                }
                            }
                        }
                    }
                }
            },
            None => {
                proof {
                    assert(strings_view(sections@).to_set() =~= Set::new(
                        |s: Seq<char>|
                            exists|k: int| 0 <= k < i + 1 && section_of(keys@[k]@) == Some(s),
                    )) by {
                        assert forall|s: Seq<char>|
                            (exists|k: int| 0 <= k < i + 1 && section_of(keys@[k]@) == Some(s))
                                implies before.contains(s) by {
                            let k = choose|k: int|
                                0 <= k < i + 1 && section_of(keys@[k]@) == Some(s);
                            assert(k != i);
                        }
                    }
                }
            },
        }
        i = i + 1;
    }
    proof {
        assert(strings_view(sections@).to_set() =~= sections_of(env_map@)) by {
            assert forall|s: Seq<char>|
                sections_of(env_map@).contains(s) implies strings_view(sections@).to_set().contains(
                s,
            ) by {
                let k = choose|k: Seq<char>| env_map@.contains_key(k) && section_of(k) == Some(s);
                assert(strings_view(keys@).to_set().contains(k));
                let j = choose|j: int|
                    0 <= j < strings_view(keys@).len() && strings_view(keys@)[j] == k;
                assert(section_of(keys@[j]@) == Some(s));
            }
            assert forall|s: Seq<char>|
                strings_view(sections@).to_set().contains(s) implies sections_of(
                env_map@,
            ).contains(s) by {
                let j = choose|j: int| 0 <= j < keys@.len() && section_of(keys@[j]@) == Some(s);
                assert(strings_view(keys@)[j] == keys@[j]@);
                assert(strings_view(keys@).to_set().contains(keys@[j]@));
            }
        }
    }
    sections
}

/// The help text before the list of discovered sections.
pub open spec fn help_head() -> Seq<char> {
    "mail-imap-mcp-rs\n"@ + "Secure IMAP MCP server over stdio\n\n"@ + "Usage:\n"@
        + "  mail-imap-mcp-rs\n"@ + "  mail-imap-mcp-rs --help\n\n"@ + "IMAP environment setup\n"@
        + "  Required per account section MAIL_IMAP_<ACCOUNT>_:\n"@ + "    MAIL_IMAP_<ACCOUNT>_HOST\n"@
        + "    MAIL_IMAP_<ACCOUNT>_USER\n"@ + "    MAIL_IMAP_<ACCOUNT>_PASS\n"@
        + "  Optional per account section:\n"@ + "    MAIL_IMAP_<ACCOUNT>_PORT (default: 993)\n"@
        + "    MAIL_IMAP_<ACCOUNT>_SECURE (default: true)\n"@
        + "  If no account section is discovered from environment, DEFAULT is used by convention.\n\n"@
        + "Discovered account sections (from current environment)\n"@
}

/// The help text after the list of discovered sections.
pub open spec fn help_tail() -> Seq<char> {
    "\n"@ + "Global policy defaults\n"@ + "  MAIL_IMAP_WRITE_ENABLED=false\n"@
        + "  MAIL_IMAP_CONNECT_TIMEOUT_MS=30000\n"@ + "  MAIL_IMAP_GREETING_TIMEOUT_MS=15000\n"@
        + "  MAIL_IMAP_SOCKET_TIMEOUT_MS=300000\n"@ + "  MAIL_IMAP_CURSOR_TTL_SECONDS=600\n"@
        + "  MAIL_IMAP_CURSOR_MAX_ENTRIES=512\n\n"@ + "Send/write gate policy\n"@
        + "  Read tools are enabled by default. Write-path tools are blocked unless MAIL_IMAP_WRITE_ENABLED=true.\n"@
        + "  This gate protects against accidental mailbox mutations (copy, move, flag updates, delete).\n"@
}

/// The value of `key` in `env`, if set.
pub open spec fn env_value(env: Map<Seq<char>, Seq<char>>, key: Seq<char>) -> Option<Seq<char>> {
    if env.contains_key(key) {
        Some(env[key])
    } else {
        None
    }
}

/// The per-section variable names shown in the help output, in order.
pub open spec fn help_suffix(i: int) -> Seq<char> {
    if i == 0 {
        "HOST"@
    } else if i == 1 {
        "USER"@
    } else if i == 2 {
        "PASS"@
    } else if i == 3 {
        "PORT"@
    } else {
        "SECURE"@
    }
}

/// The help line of one variable of a section.
pub open spec fn variable_line(env: Map<Seq<char>, Seq<char>>, section: Seq<char>, i: int) -> Seq<
    char,
> {
    let key = "MAIL_IMAP_"@ + section + "_"@ + help_suffix(i);
    "    "@ + key + "="@ + redacted(key, env_value(env, key)) + "\n"@
}

/// The help lines of the variables `0..n` of a section.
pub open spec fn variable_lines(env: Map<Seq<char>, Seq<char>>, section: Seq<char>, n: int) -> Seq<
    char,
>
    decreases n,
{
    if n <= 0 {
        Seq::empty()
    } else {
        variable_lines(env, section, n - 1) + variable_line(env, section, n - 1)
    }
}

/// The help block of one section.
pub open spec fn section_block(env: Map<Seq<char>, Seq<char>>, section: Seq<char>) -> Seq<char> {
    "  ["@ + section + "]\n"@ + variable_lines(env, section, 5)
}

/// The help blocks of a list of sections, in order.
pub open spec fn section_blocks(env: Map<Seq<char>, Seq<char>>, sections: Seq<Seq<char>>) -> Seq<
    char,
>
    decreases sections.len(),
{
    if sections.len() == 0 {
        Seq::empty()
    } else {
        section_blocks(env, sections.drop_last()) + section_block(env, sections.last())
    }
}

/// The whole help text for an environment whose sections are `sections`, in order.
pub open spec fn help_text(env: Map<Seq<char>, Seq<char>>, sections: Seq<Seq<char>>) -> Seq<char> {
    help_head() + (if sections.len() == 0 {
        "  (none discovered)\n"@
    } else {
        section_blocks(env, sections)
    }) + help_tail()
}

/// Appends the help block of one section.
fn push_section_block(out: &mut String, env_map: &EnvMap, section: &str)
    ensures
        final(out)@ == old(out)@ + section_block(env_map@, section@),
{
    out.append("  [");
    out.append(section);
    out.append("]\n");
    let suffixes = ["HOST", "USER", "PASS", "PORT", "SECURE"];
    let ghost start = out@;
    let mut i: usize = 0;
    while i < 5
        invariant
            i <= 5,
            suffixes@.len() == 5,
            forall|k: int| 0 <= k < 5 ==> (#[trigger] suffixes@[k])@ == help_suffix(k),
            out@ == start + variable_lines(env_map@, section@, i as int),
        decreases 5 - i,
    {
        let mut key = String::from_str("MAIL_IMAP_");
        key.append(section);
        key.append("_");
        key.append(suffixes[i]);
        let shown = match env_map.get(key.as_str()) {
            Some(v) => redact_value(key.as_str(), Some(v.as_str())),
            None => redact_value(key.as_str(), None),
        };
        out.append("    ");
        out.append(key.as_str());
        out.append("=");
        out.append(shown.as_str());
        out.append("\n");
        proof {
            assert(key@ == "MAIL_IMAP_"@ + section@ + "_"@ + help_suffix(i as int));
        }
        i = i + 1;
    }
}

/// Render the help output: usage, the account sections discovered in `env_map` with
/// each section's variables (secrets redacted), and the global policy defaults.
pub fn build_help_output(env_map: &EnvMap) -> (r: String)
    ensures
        r@ == help_of(env_map@),
        exists|sections: Seq<Seq<char>>|
            strictly_sorted(sections) && sections.to_set() == sections_of(env_map@) && r@
                == help_text(env_map@, sections),
{
    let account_sections = discover_account_sections(env_map);
    let mut out = String::new();
    out.append("mail-imap-mcp-rs\n");
    out.append("Secure IMAP MCP server over stdio\n\n");
    out.append("Usage:\n");
    out.append("  mail-imap-mcp-rs\n");
    out.append("  mail-imap-mcp-rs --help\n\n");
    out.append("IMAP environment setup\n");
    out.append("  Required per account section MAIL_IMAP_<ACCOUNT>_:\n");
    out.append("    MAIL_IMAP_<ACCOUNT>_HOST\n");
    out.append("    MAIL_IMAP_<ACCOUNT>_USER\n");
    out.append("    MAIL_IMAP_<ACCOUNT>_PASS\n");
    out.append("  Optional per account section:\n");
    out.append("    MAIL_IMAP_<ACCOUNT>_PORT (default: 993)\n");
    out.append("    MAIL_IMAP_<ACCOUNT>_SECURE (default: true)\n");
    out.append(
        "  If no account section is discovered from environment, DEFAULT is used by convention.\n\n",
    );
    out.append("Discovered account sections (from current environment)\n");
    proof {
        assert(out@ == help_head());
    }
    let ghost secs = strings_view(account_sections@);
    if account_sections.len() == 0 {
        out.append("  (none discovered)\n");
    } else {
        let mut i: usize = 0;
        while i < account_sections.len()
            invariant
                i <= account_sections@.len(),
                secs == strings_view(account_sections@),
                out@ == help_head() + section_blocks(env_map@, secs.take(i as int)),
            decreases account_sections.len() - i,
        {
            proof {
                assert(secs.take(i + 1).drop_last() == secs.take(i as int));
            }
            push_section_block(&mut out, env_map, account_sections[i].as_str());
            i = i + 1;
        }
        proof {
            assert(secs.take(secs.len() as int) == secs);
        }
    }
    out.append("\n");
    out.append("Global policy defaults\n");
    out.append("  MAIL_IMAP_WRITE_ENABLED=false\n");
    out.append("  MAIL_IMAP_CONNECT_TIMEOUT_MS=30000\n");
    out.append("  MAIL_IMAP_GREETING_TIMEOUT_MS=15000\n");
    out.append("  MAIL_IMAP_SOCKET_TIMEOUT_MS=300000\n");
    out.append("  MAIL_IMAP_CURSOR_TTL_SECONDS=600\n");
    out.append("  MAIL_IMAP_CURSOR_MAX_ENTRIES=512\n\n");
    out.append("Send/write gate policy\n");
    out.append(
        "  Read tools are enabled by default. Write-path tools are blocked unless MAIL_IMAP_WRITE_ENABLED=true.\n",
    );
    out.append(
        "  This gate protects against accidental mailbox mutations (copy, move, flag updates, delete).\n",
    );
    proof {
        assert(out@ == help_text(env_map@, secs));
        crate::text::lemma_sorted_of(secs);
    }
    out
}

/// The help text of environment `env`: its sections in increasing order.
pub open spec fn help_of(env: Map<Seq<char>, Seq<char>>) -> Seq<char> {
    help_text(env, crate::text::sorted_of(sections_of(env)))
}

/// Environments `e1` and `e2` set the same variables to the same values, but for secret
/// variables whose values are non-empty in both.
pub open spec fn same_but_secrets(e1: Map<Seq<char>, Seq<char>>, e2: Map<Seq<char>, Seq<char>>) -> bool {
    &&& e1.dom() == e2.dom()
    &&& forall|k: Seq<char>| #[trigger]
        e1.contains_key(k) ==> e1[k] == e2[k] || (secret_key(k) && e1[k].len() > 0 && e2[k].len()
            > 0)
}

/// The variable lines of a section read alike from environments that differ only in
/// secret values.
proof fn lemma_lines_ignore_secrets(
    e1: Map<Seq<char>, Seq<char>>,
    e2: Map<Seq<char>, Seq<char>>,
    section: Seq<char>,
    n: int,
)
    requires
        same_but_secrets(e1, e2),
    ensures
        variable_lines(e1, section, n) == variable_lines(e2, section, n),
    decreases n,
{
    if n > 0 {
        lemma_lines_ignore_secrets(e1, e2, section, n - 1);
        let key = "MAIL_IMAP_"@ + section + "_"@ + help_suffix(n - 1);
        if e1.contains_key(key) {
            assert(e2.contains_key(key));
        } else {
            assert(!e2.contains_key(key));
        }
        assert(redacted(key, env_value(e1, key)) == redacted(key, env_value(e2, key)));
    }
}

/// The section blocks read alike from environments that differ only in secret values.
proof fn lemma_blocks_ignore_secrets(
    e1: Map<Seq<char>, Seq<char>>,
    e2: Map<Seq<char>, Seq<char>>,
    sections: Seq<Seq<char>>,
)
    requires
        same_but_secrets(e1, e2),
    ensures
        section_blocks(e1, sections) == section_blocks(e2, sections),
    decreases sections.len(),
{
    if sections.len() > 0 {
        lemma_blocks_ignore_secrets(e1, e2, sections.drop_last());
        lemma_lines_ignore_secrets(e1, e2, sections.last(), 5);
    }
}

/// Law: the help output does not depend on the values of secret variables: two
/// environments that differ only in non-empty values of secret variables give the same
/// help text.
pub proof fn lemma_help_ignores_secret_values(e1: Map<Seq<char>, Seq<char>>, e2: Map<Seq<char>, Seq<char>>)
    requires
        same_but_secrets(e1, e2),
    ensures
        help_of(e1) == help_of(e2),
{
    assert(sections_of(e1) =~= sections_of(e2)) by {
        assert forall|s: Seq<char>| sections_of(e1).contains(s) <==> sections_of(e2).contains(s) by {
            if sections_of(e1).contains(s) {
                let k = choose|k: Seq<char>| e1.contains_key(k) && section_of(k) == Some(s);
                assert(e2.contains_key(k));
            }
            if sections_of(e2).contains(s) {
                let k = choose|k: Seq<char>| e2.contains_key(k) && section_of(k) == Some(s);
                assert(e1.dom().contains(k));
            }
        }
    }
    lemma_blocks_ignore_secrets(e1, e2, crate::text::sorted_of(sections_of(e1)));
}

} // verus!
