//! Where the server listens.

use vstd::prelude::*;
use vstd::string::StringExecFns;

verus! {

/// Decimal digits of `n`, most significant first, without leading zeros.
pub open spec fn decimal(n: nat) -> Seq<char>
    decreases n,
{
    if n < 10 {
        seq![(48 + n) as char]
    } else {
        decimal(n / 10) + seq![(48 + n % 10) as char]
    }
}

/// The number that the decimal numeral `s` stands for, most significant
/// digit first.
pub open spec fn numeral_value(s: Seq<char>) -> int
    decreases s.len(),
{
    if s.len() == 0 {
        0
    } else {
        numeral_value(s.drop_last()) * 10 + (s.last() as int - 48)
    }
}

/// Whether `c` is one of the digits `0` to `9`.
pub open spec fn is_digit(c: char) -> bool {
    48 <= c as int <= 57
}

/// `decimal(n)` is the base-10 numeral of `n`: digits only, reading back as
/// `n`, with no leading zero unless `n` is 0.
pub proof fn decimal_is_numeral(n: nat)
    ensures
        decimal(n).len() >= 1,
        forall|i: int| 0 <= i < decimal(n).len() ==> is_digit(#[trigger] decimal(n)[i]),
        numeral_value(decimal(n)) == n,
        decimal(n)[0] == '0' ==> n == 0,
    decreases n,
{
    if n < 10 {
        assert(((48 + n) as char) as int == 48 + n);
        assert(decimal(n).drop_last() =~= Seq::<char>::empty());
        assert(numeral_value(Seq::<char>::empty()) == 0);
        assert(decimal(n).last() as int == 48 + n);
    } else {
        decimal_is_numeral(n / 10);
        let d = n % 10;
        assert(((48 + d) as char) as int == 48 + d);
        let s = decimal(n);
        assert(s.drop_last() =~= decimal(n / 10));
        assert(s[0] == decimal(n / 10)[0]);
        assert forall|i: int| 0 <= i < s.len() implies is_digit(#[trigger] s[i]) by {
            if i < s.len() - 1 {
                assert(s[i] == decimal(n / 10)[i]);
            }
        }
        assert(s.last() as int == 48 + d);
        assert(numeral_value(s) == numeral_value(decimal(n / 10)) * 10 + d);
        assert(n / 10 * 10 + d == n);
    }
}

/// The decimal digit `d` as text.
fn digit_text(d: u16) -> (t: &'static str)
    requires
        d < 10,
    ensures
        t@ == seq![(48 + d) as char],
{
    proof {
        reveal_strlit("0");
        reveal_strlit("1");
        reveal_strlit("2");
        reveal_strlit("3");
        reveal_strlit("4");
        reveal_strlit("5");
        reveal_strlit("6");
        reveal_strlit("7");
        reveal_strlit("8");
        reveal_strlit("9");
    }
    if d == 0 {
        "0"
    } else if d == 1 {
        "1"
    } else if d == 2 {
        "2"
    } else if d == 3 {
        "3"
    } else if d == 4 {
        "4"
    } else if d == 5 {
        "5"
    } else if d == 6 {
        "6"
    } else if d == 7 {
        "7"
    } else if d == 8 {
        "8"
    } else {
        "9"
    }
}

/// Appends the decimal digits of `n` to `text`.
fn push_decimal(text: &mut String, n: u16)
    ensures
        final(text)@ == old(text)@ + decimal(n as nat),
    decreases n,
{
    if n >= 10 {
        push_decimal(text, n / 10);
    }
    text.append(digit_text(n % 10));
    assert(text@ =~= old(text)@ + decimal(n as nat));
}

/// Where a server listens, whether it keeps accepting, and the shared
/// client list `M` that it hands to connections.
pub struct Server<M> {
    bind_hostname: String,
    bind_port: u16,
    is_on: bool,
    server_manager: M,
}

impl<M> Server<M> {
    pub closed spec fn hostname(&self) -> Seq<char> {
        self.bind_hostname@
    }

    pub closed spec fn port(&self) -> u16 {
        self.bind_port
    }

    pub closed spec fn accepting(&self) -> bool {
        self.is_on
    }

    pub closed spec fn manager(&self) -> M {
        self.server_manager
    }

    /// A server that will listen on `bind_hostname` and `bind_port` and keep
    /// accepting connections.
    pub fn new(bind_hostname: String, bind_port: u16, server_manager: M) -> (s: Self)
        ensures
            s.hostname() == bind_hostname@,
            s.port() == bind_port,
            s.accepting(),
            s.manager() == server_manager,
    {
        Server { bind_hostname, bind_port, is_on: true, server_manager }
    }

    /// Whether the server keeps accepting connections.
    pub fn is_on(&self) -> (b: bool)
        ensures
            b == self.accepting(),
    {
        self.is_on
    }

    /// The shared client list.
    pub fn server_manager(&self) -> (m: &M)
        ensures
            *m == self.manager(),
    {
        &self.server_manager
    }

    /// The address to bind: host name, `:`, port in decimal.
    pub fn bind_addr(&self) -> (addr: String)
        ensures
            addr@ == self.hostname() + seq![':'] + decimal(self.port() as nat),
    {
        let mut addr = self.bind_hostname.clone();
        addr.append(":");
        proof {
            reveal_strlit(":");
        }
        push_decimal(&mut addr, self.bind_port);
        addr
    }
}

} // verus!
