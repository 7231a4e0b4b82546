use vstd::prelude::*;

verus! {

/// Port the relay listens on when nothing overrides it.
pub const DEFAULT_PORT: u16 = 9400;

/// Runtime configuration of the relay.
pub struct AppConfig {
    pub port: u16,
    pub enabled_operations: Vec<String>,
}

/// The names of the operations, as sequences of characters.
pub open spec fn operation_names(ops: Seq<String>) -> Seq<Seq<char>> {
    ops.map_values(|s: String| s@)
}

/// The operations enabled by default, in the order they are listed.
pub open spec fn default_operation_names() -> Seq<Seq<char>> {
    seq!["health"@, "notify"@, "clipboard"@, "screenshot"@, "autostart"@, "power"@]
}

/// Whether `c` is an ASCII decimal digit.
pub open spec fn is_decimal_digit(c: char) -> bool {
    '0' <= c && c <= '9'
}

/// The value of a digit character.
pub open spec fn digit_value(c: char) -> nat {
    (c as nat - '0' as nat) as nat
}

/// The value of a string of decimal digits, most significant first.
pub open spec fn decimal_value(s: Seq<char>) -> nat
    decreases s.len(),
{
    if s.len() == 0 {
        0
    } else {
        decimal_value(s.drop_last()) * 10 + digit_value(s.last())
    }
}

/// The digits that a port string holds once an optional leading `+` is taken off.
pub open spec fn port_digits(s: Seq<char>) -> Seq<char> {
    if s.len() > 0 && s[0] == '+' {
        s.drop_first()
    } else {
        s
    }
}

/// What reading `s` as a decimal `u16` gives: `None` unless `s` is an optional
/// `+` followed by at least one digit and nothing else, with a value that fits.
pub open spec fn parse_u16_spec(s: Seq<char>) -> Option<u16> {
    let d = port_digits(s);
    if d.len() > 0 && (forall|i: int| 0 <= i < d.len() ==> is_decimal_digit(#[trigger] d[i]))
        && decimal_value(d) <= u16::MAX {
        Some(decimal_value(d) as u16)
    } else {
        None
    }
}

/// A prefix of a digit string never has a larger value than the whole.
pub proof fn lemma_decimal_value_prefix(s: Seq<char>, j: int, k: int)
    requires
        0 <= j <= k <= s.len(),
        forall|i: int| 0 <= i < s.len() ==> is_decimal_digit(#[trigger] s[i]),
    ensures
        decimal_value(s.take(j)) <= decimal_value(s.take(k)),
    decreases k - j,
{
    if j < k {
        lemma_decimal_value_prefix(s, j, k - 1);
        assert(s.take(k).drop_last() =~= s.take(k - 1));
    }
}

/// Reads `s` as a decimal `u16` the way `str::parse::<u16>` does.
pub fn parse_u16(s: &str) -> (r: Option<u16>)
    ensures
        r == parse_u16_spec(s@),
{
    let n = s.unicode_len();
    let mut start: usize = 0;
    if n > 0 && s.get_char(0) == '+' {
        start = 1;
    }
    let ghost d = port_digits(s@);
    proof {
        assert(d =~= s@.subrange(start as int, n as int));
    }
    if start >= n {
        return None;
    }
    let mut value: u32 = 0;
    let mut i: usize = start;
    while i < n
        invariant
            n == s@.len(),
            start <= i <= n,
            d =~= s@.subrange(start as int, n as int),
            d == port_digits(s@),
            value <= u16::MAX,
            value == decimal_value(d.take(i - start)),
            forall|k: int| 0 <= k < i - start ==> is_decimal_digit(#[trigger] d[k]),
        decreases n - i,
    {
        let c = s.get_char(i);
        assert(d[(i - start) as int] == c);
        if !('0' <= c && c <= '9') {
            assert(!is_decimal_digit(d[(i - start) as int]));
            return None;
        }
        assert(d.take(i + 1 - start).last() == c);
        let digit: u32 = (c as u32) - ('0' as u32);
        assert(d.take(i + 1 - start).drop_last() =~= d.take(i - start));
        let next: u32 = value * 10 + digit;
        if next > 65535 {
            proof {
                assert(decimal_value(d.take(i + 1 - start)) == next);
                if forall|k: int| 0 <= k < d.len() ==> is_decimal_digit(#[trigger] d[k]) {
                    lemma_decimal_value_prefix(d, i + 1 - start, d.len() as int);
                    assert(d.take(d.len() as int) =~= d);
                }
            }
            return None;
        }
        value = next;
        i = i + 1;
    }
    assert(d.take(n - start) =~= d);
    Some(value as u16)
}

impl AppConfig {
    /// The set of operation names that this configuration enables.
    pub open spec fn enabled_set(&self) -> Set<Seq<char>> {
        operation_names(self.enabled_operations@).to_set()
    }

    /// Each enabled operation is listed once: the list is a set of names.
    pub open spec fn wf(&self) -> bool {
        operation_names(self.enabled_operations@).no_duplicates()
    }

    /// A configuration on `port` that enables the operations named in
    /// `operations`, each listed once, in the order of first mention.
    pub fn new(port: u16, operations: Vec<String>) -> (r: Self)
        ensures
            r.port == port,
            r.wf(),
            r.enabled_set() == operation_names(operations@).to_set(),
    {
        let mut kept: Vec<String> = Vec::new();
        let n = operations.len();
        let mut i: usize = 0;
        while i < n
            invariant
                n == operations@.len(),
                i <= n,
                operation_names(kept@).no_duplicates(),
                forall|x: Seq<char>|
                    operation_names(kept@).contains(x) <==> operation_names(operations@.take(
                        i as int,
                    )).contains(x),
            decreases n - i,
        {
            let candidate = &operations[i];
            let mut seen = false;
            let mut j: usize = 0;
            while j < kept.len()
                invariant
                    j <= kept@.len(),
                    seen <==> exists|k: int| 0 <= k < j && kept@[k]@ == candidate@,
                decreases kept@.len() - j,
            {
                if kept[j] == *candidate {
                    seen = true;
                }
                j = j + 1;
            }
            let ghost before = operation_names(kept@);
            let ghost prefix = operation_names(operations@.take(i as int));
            let ghost next = operation_names(operations@.take(i + 1));
            assert(next =~= prefix.push(candidate@));
            if !seen {
                kept.push(candidate.clone());
                assert(operation_names(kept@) =~= before.push(candidate@));
                assert forall|a: int, b: int|
                    0 <= a < operation_names(kept@).len() && 0 <= b < operation_names(kept@).len()
                        && a != b implies operation_names(kept@)[a] != operation_names(kept@)[b] by {
                    if a == before.len() && b < before.len() {
                        assert(kept@[b]@ == before[b]);
                    }
                    if b == before.len() && a < before.len() {
                        assert(kept@[a]@ == before[a]);
                    }
                }
                assert forall|x: Seq<char>|
                    operation_names(kept@).contains(x) <==> next.contains(x) by {
                    if next.contains(x) && x != candidate@ {
                        let k = choose|k: int| 0 <= k < next.len() && next[k] == x;
                        assert(prefix[k] == x);
                        assert(prefix.contains(x));
                        assert(before.contains(x));
                        let m = choose|m: int| 0 <= m < before.len() && before[m] == x;
                        assert(operation_names(kept@)[m] == x);
                    }
                    if operation_names(kept@).contains(x) && x != candidate@ {
                        let k = choose|k: int|
                            0 <= k < operation_names(kept@).len() && operation_names(kept@)[k] == x;
                        assert(before[k] == x);
                        assert(before.contains(x));
                        assert(prefix.contains(x));
                        let m = choose|m: int| 0 <= m < prefix.len() && prefix[m] == x;
                        assert(next[m] == x);
                    }
                    if x == candidate@ {
                        assert(next[i as int] == x);
                        assert(operation_names(kept@)[before.len() as int] == x);
                    }
                }
            } else {
                let ghost k = choose|k: int| 0 <= k < j && kept@[k]@ == candidate@;
                assert(before[k] == candidate@);
                assert forall|x: Seq<char>| before.contains(x) <==> next.contains(x) by {
                    if next.contains(x) && x != candidate@ {
                        let m = choose|m: int| 0 <= m < next.len() && next[m] == x;
                        assert(prefix[m] == x);
                    }
                    if prefix.contains(x) {
                        let m = choose|m: int| 0 <= m < prefix.len() && prefix[m] == x;
                        assert(next[m] == x);
                    }
                }
            }
            i = i + 1;
        }
        assert(operations@.take(n as int) =~= operations@);
        let r = AppConfig { port, enabled_operations: kept };
        assert(r.enabled_set() =~= operation_names(operations@).to_set());
        r
    }

    /// Whether the operation named `operation` is enabled.
    pub fn is_operation_enabled(&self, operation: &str) -> (r: bool)
        ensures
            r == operation_names(self.enabled_operations@).contains(operation@),
            r == self.enabled_set().contains(operation@),
    {
        let wanted = String::from_str(operation);
        let n = self.enabled_operations.len();
        let mut i: usize = 0;
        while i < n
            invariant
                n == self.enabled_operations@.len(),
                i <= n,
                wanted@ == operation@,
                forall|j: int| 0 <= j < i ==> self.enabled_operations@[j]@ != operation@,
            decreases n - i,
        {
            if self.enabled_operations[i] == wanted {
                proof {
                    assert(operation_names(self.enabled_operations@)[i as int] == operation@);
                }
                return true;
            }
            i = i + 1;
        }
        proof {
            if operation_names(self.enabled_operations@).contains(operation@) {
                let k = choose|k: int|
                    0 <= k < operation_names(self.enabled_operations@).len()
                        && operation_names(self.enabled_operations@)[k] == operation@;
                assert(self.enabled_operations@[k]@ == operation@);
            }
        }
        false
    }
}

/// The port after an override by `value`: the port it names, unless it names
/// none or names port 0.
pub open spec fn port_after_override(port: u16, value: Option<Seq<char>>) -> u16 {
    match value {
        Some(v) => match parse_u16_spec(v) {
            Some(p) => if p != 0 {
                p
            } else {
                port
            },
            None => port,
        },
        None => port,
    }
}

/// A value that does not name a port, or names port 0, is ignored: the port
/// stays what it was, whatever the value. A value that names another port
/// selects it. No value leaves the port as it was.
pub proof fn law_invalid_override_keeps_the_port(port: u16, v: Seq<char>)
    ensures
        parse_u16_spec(v) is None ==> port_after_override(port, Some(v)) == port,
        parse_u16_spec(v) == Some(0u16) ==> port_after_override(port, Some(v)) == port,
        parse_u16_spec(v) matches Some(p) ==> (p != 0 ==> port_after_override(port, Some(v)) == p),
        port_after_override(port, None) == port,
        port_after_override(port, Some(Seq::<char>::empty())) == port,
{
    assert(port_digits(Seq::<char>::empty()) =~= Seq::<char>::empty());
}

/// Only a decimal number names a port: the empty value, a lone `+`, and any
/// value holding a character other than a digit (besides one leading `+`)
/// name none.
pub proof fn law_only_digits_name_a_port(v: Seq<char>, i: int)
    requires
        0 <= i < v.len(),
        !('0' <= v[i] && v[i] <= '9'),
        !(i == 0 && v[i] == '+'),
    ensures
        parse_u16_spec(v) is None,
        parse_u16_spec(Seq::<char>::empty()) is None,
        parse_u16_spec(seq!['+']) is None,
{
    assert(port_digits(Seq::<char>::empty()) =~= Seq::<char>::empty());
    assert(port_digits(seq!['+']) =~= Seq::<char>::empty());
    let d = port_digits(v);
    if v[0] == '+' {
        assert(d[i - 1] == v[i]);
    } else {
        assert(d[i] == v[i]);
    }
}

/// An override never leaves the relay on port 0 when it was not there.
pub proof fn law_override_never_selects_port_zero(port: u16, value: Option<Seq<char>>)
    requires
        port != 0,
    ensures
        port_after_override(port, value) != 0,
{
}

/// Applying the same override twice is applying it once.
pub proof fn law_override_idempotent(port: u16, value: Option<Seq<char>>)
    ensures
        port_after_override(port_after_override(port, value), value) == port_after_override(
            port,
            value,
        ),
{
}

/// A leading `+` does not change what a port string names, unless nothing follows it.
pub proof fn law_plus_sign_is_optional(s: Seq<char>)
    requires
        s.len() > 0,
        s[0] != '+',
    ensures
        parse_u16_spec(seq!['+'] + s) == parse_u16_spec(s),
{
    assert((seq!['+'] + s).drop_first() =~= s);
}

/// The digit character for `d` (0 to 9).
pub open spec fn digit_char(d: nat) -> char {
    if d == 0 {
        '0'
    } else if d == 1 {
        '1'
    } else if d == 2 {
        '2'
    } else if d == 3 {
        '3'
    } else if d == 4 {
        '4'
    } else if d == 5 {
        '5'
    } else if d == 6 {
        '6'
    } else if d == 7 {
        '7'
    } else if d == 8 {
        '8'
    } else {
        '9'
    }
}

/// `n` written in decimal, without sign or leading zeros.
pub open spec fn decimal_text(n: nat) -> Seq<char>
    decreases n,
{
    if n < 10 {
        seq![digit_char(n)]
    } else {
        decimal_text(n / 10).push(digit_char(n % 10))
    }
}

proof fn lemma_digit_char(d: nat)
    requires
        d < 10,
    ensures
        is_decimal_digit(digit_char(d)),
        digit_value(digit_char(d)) == d,
{
}

proof fn lemma_decimal_text(n: nat)
    ensures
        decimal_text(n).len() > 0,
        forall|i: int| 0 <= i < decimal_text(n).len() ==> is_decimal_digit(#[trigger] decimal_text(n)[i]),
        decimal_value(decimal_text(n)) == n,
    decreases n,
{
    if n < 10 {
        lemma_digit_char(n);
        assert(decimal_text(n).drop_last() =~= Seq::<char>::empty());
        assert(decimal_value(Seq::<char>::empty()) == 0);
        assert(decimal_text(n).last() == digit_char(n));
        assert(decimal_value(decimal_text(n)) == n);
    } else {
        lemma_decimal_text(n / 10);
        lemma_digit_char(n % 10);
        let t = decimal_text(n);
        assert(t.drop_last() =~= decimal_text(n / 10));
        assert(t.last() == digit_char(n % 10));
        assert(n == (n / 10) * 10 + n % 10);
        assert(decimal_value(t) == decimal_value(t.drop_last()) * 10 + digit_value(t.last()));
        assert(decimal_value(t) == n);
        assert forall|i: int| 0 <= i < t.len() implies is_decimal_digit(#[trigger] t[i]) by {
            if i < t.len() - 1 {
                assert(t[i] == decimal_text(n / 10)[i]);
            }
        }
    }
}

/// The decimal text of every port but 0 selects that port, whatever the port was.
pub proof fn law_decimal_port_is_selected(port: u16, p: u16)
    requires
        p != 0,
    ensures
        parse_u16_spec(decimal_text(p as nat)) == Some(p),
        port_after_override(port, Some(decimal_text(p as nat))) == p,
{
    lemma_decimal_text(p as nat);
    let t = decimal_text(p as nat);
    assert(t[0] != '+');
    assert(port_digits(t) == t);
}

impl AppConfig {
    /// Replaces the port with the one that `value` names, if it names one.
    /// A value that is not a decimal port, or is 0, leaves the port as it was.
    pub fn apply_port_override(self, value: Option<&str>) -> (r: Self)
        ensures
            r.enabled_operations@ == self.enabled_operations@,
            self.wf() ==> r.wf(),
            r.port == port_after_override(
                self.port,
                match value {
                    Some(v) => Some(v@),
                    None => None,
                },
            ),
    {
        let mut config = self;
        if let Some(val) = value {
            match parse_u16(val) {
                Some(port) => {
                    if port != 0 {
                        config.port = port;
                    }
                },
                None => {},
            }
        }
        config
    }
}

/// The port used when the configuration does not name one.
pub fn default_port() -> (r: u16)
    ensures
        r == DEFAULT_PORT,
{
    DEFAULT_PORT
}

/// The operations enabled when the configuration does not list any.
pub fn default_operations() -> (r: Vec<String>)
    ensures
        operation_names(r@) == default_operation_names(),
{
    let mut ops: Vec<String> = Vec::new();
    ops.push(String::from_str("health"));
    ops.push(String::from_str("notify"));
    ops.push(String::from_str("clipboard"));
    ops.push(String::from_str("screenshot"));
    ops.push(String::from_str("autostart"));
    ops.push(String::from_str("power"));
    assert(operation_names(ops@) =~= default_operation_names());
    ops
}

impl Default for AppConfig {
    fn default() -> (r: Self)
        ensures
            r.port == DEFAULT_PORT,
            operation_names(r.enabled_operations@) == default_operation_names(),
            r.wf(),
    {
        let r = AppConfig { port: default_port(), enabled_operations: default_operations() };
        proof {
            reveal_strlit("health");
            reveal_strlit("notify");
            reveal_strlit("clipboard");
            reveal_strlit("screenshot");
            reveal_strlit("autostart");
            reveal_strlit("power");
            let names = default_operation_names();
            assert forall|a: int, b: int|
                0 <= a < names.len() && 0 <= b < names.len() && a != b implies names[a]
                != names[b] by {
                assert(names[a].len() != names[b].len() || names[a][0] != names[b][0]
                    || names[a][1] != names[b][1]);
            }
        }
        r
    }
}

/// Where the configuration is read from.
#[derive(Debug, Clone, Copy, PartialEq, Eq, Structural)]
pub enum ConfigSource {
    /// The file that the `WSL_RELAY_CONFIG` variable names.
    NamedFile,
    /// The default file, `%APPDATA%\wsl-relay\config.toml`.
    DefaultFile,
    /// No file: the built-in defaults.
    BuiltIn,
}

/// The configuration source by priority: a file named by `WSL_RELAY_CONFIG`
/// first, then the default file if it exists, then the built-in defaults.
pub fn config_source(file_named: bool, default_file_exists: bool) -> (r: ConfigSource)
    ensures
        file_named ==> r == ConfigSource::NamedFile,
        !file_named && default_file_exists ==> r == ConfigSource::DefaultFile,
        !file_named && !default_file_exists ==> r == ConfigSource::BuiltIn,
{
    if file_named {
        ConfigSource::NamedFile
    } else if default_file_exists {
        ConfigSource::DefaultFile
    } else {
        ConfigSource::BuiltIn
    }
}

/// The configuration the relay runs with: the one read from the chosen file
/// (`None` when there was none, or it could not be read or parsed, which
/// falls back to the built-in defaults), with its port overridden by
/// `WSL_RELAY_PORT`'s value, which takes priority over every file.
pub fn effective_config(from_file: Option<AppConfig>, port_value: Option<&str>) -> (r: AppConfig)
    ensures
        match from_file {
            Some(c) => r.enabled_operations@ == c.enabled_operations@,
            None => operation_names(r.enabled_operations@) == default_operation_names(),
        },
        r.port == port_after_override(
            match from_file {
                Some(c) => c.port,
                None => DEFAULT_PORT,
            },
            match port_value {
                Some(v) => Some(v@),
                None => None,
            },
        ),
{
    let base = match from_file {
        Some(c) => c,
        None => AppConfig::default(),
    };
    base.apply_port_override(port_value)
}

} // verus!
