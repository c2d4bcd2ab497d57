//! Process configuration at its pure core: the environment-variable set
//! the service is started with, the parsing of the numeric pool bound, and
//! the connection and bind texts assembled from the variables. Reading the
//! environment itself is the caller's input edge.

use vstd::prelude::*;

verus! {

/// Every variable the service is configured by. Each one must be present
/// in the environment; the values are kept as given.
#[derive(Clone, Debug)]
pub struct EnvironmentVariables {
    pub database_host: String,
    pub database_port: String,
    pub database_creds: String,
    pub database_name: String,
    pub port: String,
    pub secret: String,
    pub hostname: String,
    pub max_pool_connections: String,
    pub kc_client_id: String,
    pub kc_client_secret: String,
    pub kc_login_url: String,
}

/// The value of one decimal digit.
pub open spec fn digit_value(c: char) -> Option<int> {
    match c {
        '0' => Some(0int),
        '1' => Some(1int),
        '2' => Some(2int),
        '3' => Some(3int),
        '4' => Some(4int),
        '5' => Some(5int),
        '6' => Some(6int),
        '7' => Some(7int),
        '8' => Some(8int),
        '9' => Some(9int),
        _ => None,
    }
}

/// The number a text spells in decimal, or `None` where any character is
/// no digit or the text is empty.
pub open spec fn decimal_value(s: Seq<char>) -> Option<int>
    decreases s.len(),
{
    if s.len() == 0 {
        None
    } else if s.len() == 1 {
        digit_value(s[0])
    } else {
        match (decimal_value(s.drop_last()), digit_value(s.last())) {
            (Some(v), Some(d)) => Some(10 * v + d),
            _ => None,
        }
    }
}

/// A spelled number is never negative.
proof fn lemma_decimal_nonneg(s: Seq<char>)
    requires
        decimal_value(s) is Some,
    ensures
        decimal_value(s).unwrap() >= 0,
    decreases s.len(),
{
    if s.len() > 1 {
        assert(decimal_value(s.drop_last()) is Some);
        lemma_decimal_nonneg(s.drop_last());
    }
}

/// A longer prefix of a digit string never spells a smaller number.
proof fn lemma_decimal_prefix_grows(s: Seq<char>, i: int, j: int)
    requires
        0 < i <= j <= s.len(),
        decimal_value(s.take(j)) is Some,
    ensures
        decimal_value(s.take(i)) is Some,
        decimal_value(s.take(i)).unwrap() <= decimal_value(s.take(j)).unwrap(),
    decreases j - i,
{
    if i < j {
        let t = s.take(j);
        assert(t.drop_last() =~= s.take(j - 1));
        assert(decimal_value(s.take(j - 1)) is Some);
        let prev = decimal_value(s.take(j - 1)).unwrap();
        let d = digit_value(t.last()).unwrap();
        assert(decimal_value(s.take(j)).unwrap() == 10 * prev + d);
        lemma_decimal_nonneg(s.take(j - 1));
        lemma_decimal_prefix_grows(s, i, j - 1);
    }
}

fn digit_of(c: char) -> (r: Option<u32>)
    ensures
        (match r {
            Some(d) => digit_value(c) == Some(d as int),
            None => digit_value(c) is None,
        }),
{
    match c {
        '0' => Some(0),
        '1' => Some(1),
        '2' => Some(2),
        '3' => Some(3),
        '4' => Some(4),
        '5' => Some(5),
        '6' => Some(6),
        '7' => Some(7),
        '8' => Some(8),
        '9' => Some(9),
        _ => None,
    }
}

/// Parses the configured pool bound: the decimal number the text spells,
/// where there is one and it fits the bound's type.
pub fn parse_connection_count(s: &str) -> (r: Option<u32>)
    ensures
        (match (r, decimal_value(s@)) {
            (Some(v), Some(n)) => v as int == n,
            (None, None) => true,
            (None, Some(n)) => n > u32::MAX,
            (Some(_), None) => false,
        }),
{
    let n = s.unicode_len();
    if n == 0 {
        return None;
    }
    let mut acc: u64 = 0;
    let mut i: usize = 0;
    while i < n
        invariant
            n == s@.len(),
            0 < n,
            i <= n,
            i == 0 ==> acc == 0,
            i > 0 ==> decimal_value(s@.take(i as int)) == Some(acc as int),
            acc <= u32::MAX,
        decreases n - i,
    {
        let c = s.get_char(i);
        let d = match digit_of(c) {
            Some(d) => d,
            None => {
                proof {
                    if decimal_value(s@) is Some {
                        lemma_decimal_digits(s@, i as int);
                    }
                }
                return None;
            },
        };
        let next: u64 = acc * 10 + (d as u64);
        proof {
            assert(s@.take(i as int + 1).drop_last() =~= s@.take(i as int));
            assert(s@.take(i as int + 1).last() == s@[i as int]);
            if i == 0 {
                assert(s@.take(1).len() == 1);
            }
            assert(decimal_value(s@.take(i as int + 1)) == Some(next as int));
        }
        if next > 0xffff_ffff {
            proof {
                if decimal_value(s@) is Some {
                    assert(s@.take(n as int) =~= s@);
                    lemma_decimal_prefix_grows(s@, i as int + 1, n as int);
                }
            }
            return None;
        }
        acc = next;
        i = i + 1;
    }
    proof {
        assert(s@.take(n as int) =~= s@);
    }
    Some(acc as u32)
}

/// Where the text spells a number, every character of it is a digit.
proof fn lemma_decimal_digits(s: Seq<char>, i: int)
    requires
        0 <= i < s.len(),
        decimal_value(s) is Some,
    ensures
        digit_value(s[i]) is Some,
    decreases s.len(),
{
    if s.len() == 1 {
    } else {
        assert(decimal_value(s.drop_last()) is Some);
        if i < s.len() - 1 {
            assert(s.drop_last()[i] == s[i]);
            lemma_decimal_digits(s.drop_last(), i);
        }
    }
}

/// The connection text the store is reached at:
/// `postgresql://CREDS@HOST:PORT/NAME`, assembled from the variables,
/// never from request input.
pub fn database_url(env: &EnvironmentVariables) -> (r: String)
    ensures
        r@ == "postgresql://"@ + env.database_creds@ + "@"@ + env.database_host@ + ":"@
            + env.database_port@ + "/"@ + env.database_name@,
{
    let mut s = String::from_str("postgresql://");
    s.append(env.database_creds.as_str());
    s.append("@");
    s.append(env.database_host.as_str());
    s.append(":");
    s.append(env.database_port.as_str());
    s.append("/");
    s.append(env.database_name.as_str());
    s
}

/// The address the listener binds: `HOSTNAME:PORT`.
pub fn bind_address(env: &EnvironmentVariables) -> (r: String)
    ensures
        r@ == env.hostname@ + ":"@ + env.port@,
{
    let mut s = String::new();
    s.append(env.hostname.as_str());
    s.append(":");
    s.append(env.port.as_str());
    proof {
        assert(Seq::<char>::empty() + env.hostname@ =~= env.hostname@);
    }
    s
}

/// The service's self-description, `NAME:VERSION`, as the API document
/// announces it.
pub fn app_identifier(appname: &str, version: &str) -> (r: String)
    ensures
        r@ == appname@ + ":"@ + version@,
{
    let mut s = String::new();
    s.append(appname);
    s.append(":");
    s.append(version);
    proof {
        assert(Seq::<char>::empty() + appname@ =~= appname@);
    }
    s
}

} // verus!
