//! The bus-topology token by which the kernel addresses a device.
//!
//! A device is reached from a bus through a chain of hub ports, outermost
//! first. Bus 2 with the chain 1, 3 is written `2-1.3`; that text is the
//! payload of a bind or unbind request.

use vstd::prelude::*;
use vstd::string::*;
use crate::text::{
    decimal, digits, lemma_decimal_is_digits, lemma_decimal_is_injective, push_decimal,
};

verus! {

/// The ports of a chain as decimal numerals joined by `.`, in chain order.
pub open spec fn port_chain_text(ports: Seq<u8>) -> Seq<char>
    decreases ports.len(),
{
    if ports.len() == 0 {
        Seq::empty()
    } else if ports.len() == 1 {
        decimal(ports[0] as nat)
    } else {
        port_chain_text(ports.drop_last()) + seq!['.'] + decimal(ports.last() as nat)
    }
}

/// The token of the device behind `ports` on bus `bus`: the bus number, `-`, the joined ports.
pub open spec fn path_text(bus: u8, ports: Seq<u8>) -> Seq<char> {
    decimal(bus as nat) + seq!['-'] + port_chain_text(ports)
}

/// Renders the token of the device that sits behind `ports` on bus `bus`.
///
/// A device with an empty chain is not plugged into any hub port (a root hub,
/// for one) and has no token.
pub fn topology_path(bus: u8, ports: &[u8]) -> (r: Option<String>)
    ensures
        r is None <==> ports@.len() == 0,
        r matches Some(path) ==> path@ == path_text(bus, ports@),
{
    let n: usize = ports.len();
    if n == 0 {
        return None;
    }
    let mut out: String = String::new();
    push_decimal(&mut out, bus as u64);
    out.append("-");
    push_decimal(&mut out, ports[0] as u64);
    proof {
        reveal_strlit("-");
        assert(ports@.take(1).len() == 1);
        assert(out@ =~= path_text(bus, ports@.take(1)));
    }
    let mut i: usize = 1;
    while i < n
        invariant
            n == ports@.len(),
            1 <= i <= n,
            out@ == path_text(bus, ports@.take(i as int)),
        decreases n - i,
    {
        out.append(".");
        push_decimal(&mut out, ports[i] as u64);
        proof {
            reveal_strlit(".");
            let next = ports@.take(i as int + 1);
            assert(next.drop_last() =~= ports@.take(i as int));
            assert(next.last() == ports@[i as int]);
            assert(out@ =~= path_text(bus, next));
        }
        i += 1;
    }
    assert(ports@.take(n as int) =~= ports@);
    Some(out)
}

/// A chain's text holds digits and dots only.
proof fn lemma_port_chain_text_alphabet(ports: Seq<u8>)
    ensures
        forall|i: int|
            0 <= i < port_chain_text(ports).len() ==> {
                let c = #[trigger] port_chain_text(ports)[i];
                c == '.' || digits().contains(c)
            },
    decreases ports.len(),
{
    let text = port_chain_text(ports);
    if ports.len() == 1 {
        lemma_decimal_is_digits(ports[0] as nat);
    } else if ports.len() > 1 {
        let front = port_chain_text(ports.drop_last());
        let back = decimal(ports.last() as nat);
        lemma_port_chain_text_alphabet(ports.drop_last());
        lemma_decimal_is_digits(ports.last() as nat);
        assert forall|i: int| 0 <= i < text.len() implies {
            let c = #[trigger] text[i];
            c == '.' || digits().contains(c)
        } by {
            if i < front.len() {
                assert(text[i] == front[i]);
            } else if i > front.len() {
                assert(text[i] == back[i - front.len() - 1]);
            }
        }
    }
}

/// A token built from a bus and a port chain is never empty and never
/// contains `:`, the mark of an interface name.
pub proof fn lemma_path_text_names_a_device(bus: u8, ports: Seq<u8>)
    ensures
        path_text(bus, ports).len() >= 2,
        !path_text(bus, ports).contains(':'),
{
    lemma_decimal_is_digits(bus as nat);
    lemma_port_chain_text_alphabet(ports);
    let head = decimal(bus as nat);
    let chain = port_chain_text(ports);
    let path = path_text(bus, ports);
    assert forall|i: int| 0 <= i < path.len() implies path[i] != ':' by {
        if i < head.len() {
            assert(path[i] == head[i]);
            assert(digits().contains(head[i]));
        } else if i > head.len() {
            let c = chain[i - head.len() - 1];
            assert(path[i] == c);
            assert(c == '.' || digits().contains(c));
        }
    }
}

/// Where two texts are equal and each is a front, a separator and a back
/// that holds no separator, the fronts are equal and the backs are equal.
proof fn lemma_split_at_last_separator(
    front1: Seq<char>,
    back1: Seq<char>,
    front2: Seq<char>,
    back2: Seq<char>,
    separator: char,
)
    requires
        front1 + seq![separator] + back1 == front2 + seq![separator] + back2,
        !back1.contains(separator),
        !back2.contains(separator),
    ensures
        front1 == front2,
        back1 == back2,
{
    let text1 = front1 + seq![separator] + back1;
    let text2 = front2 + seq![separator] + back2;
    assert(text1.len() == front1.len() + 1 + back1.len());
    assert(text2.len() == front2.len() + 1 + back2.len());
    if front1.len() < front2.len() {
        assert(text2[front2.len() as int] == separator);
        assert(text1[front2.len() as int] == back1[front2.len() - front1.len() - 1]);
        assert(back1.contains(separator));
    } else if front2.len() < front1.len() {
        assert(text1[front1.len() as int] == separator);
        assert(text2[front1.len() as int] == back2[front1.len() - front2.len() - 1]);
        assert(back2.contains(separator));
    }
    assert(front1 =~= text1.subrange(0, front1.len() as int));
    assert(front2 =~= text2.subrange(0, front2.len() as int));
    assert(back1 =~= text1.subrange(front1.len() as int + 1, text1.len() as int));
    assert(back2 =~= text2.subrange(front2.len() as int + 1, text2.len() as int));
}

/// Where two texts are equal and each is a front that holds no separator, a
/// separator and a back, the fronts are equal and the backs are equal.
proof fn lemma_split_at_first_separator(
    front1: Seq<char>,
    back1: Seq<char>,
    front2: Seq<char>,
    back2: Seq<char>,
    separator: char,
)
    requires
        front1 + seq![separator] + back1 == front2 + seq![separator] + back2,
        !front1.contains(separator),
        !front2.contains(separator),
    ensures
        front1 == front2,
        back1 == back2,
{
    let text1 = front1 + seq![separator] + back1;
    let text2 = front2 + seq![separator] + back2;
    assert(text1.len() == front1.len() + 1 + back1.len());
    assert(text2.len() == front2.len() + 1 + back2.len());
    if front1.len() < front2.len() {
        assert(text1[front1.len() as int] == separator);
        assert(text2[front1.len() as int] == front2[front1.len() as int]);
        assert(front2.contains(separator));
    } else if front2.len() < front1.len() {
        assert(text2[front2.len() as int] == separator);
        assert(text1[front2.len() as int] == front1[front2.len() as int]);
        assert(front1.contains(separator));
    }
    assert(front1 =~= text1.subrange(0, front1.len() as int));
    assert(front2 =~= text2.subrange(0, front2.len() as int));
    assert(back1 =~= text1.subrange(front1.len() as int + 1, text1.len() as int));
    assert(back2 =~= text2.subrange(front2.len() as int + 1, text2.len() as int));
}

/// A decimal numeral holds neither a dot nor a dash.
proof fn lemma_decimal_has_no_separator(n: nat)
    ensures
        !decimal(n).contains('.'),
        !decimal(n).contains('-'),
{
    lemma_decimal_is_digits(n);
    assert forall|i: int| 0 <= i < decimal(n).len() implies decimal(n)[i] != '.' && decimal(n)[i]
        != '-' by {
        assert(digits().contains(decimal(n)[i]));
    }
}

/// The text of a chain of two or more ports holds a dot; that of a single port holds none.
proof fn lemma_port_chain_text_dots(ports: Seq<u8>)
    ensures
        ports.len() == 0 <==> port_chain_text(ports).len() == 0,
        ports.len() >= 2 <==> port_chain_text(ports).contains('.'),
{
    if ports.len() == 1 {
        lemma_decimal_is_digits(ports[0] as nat);
        lemma_decimal_has_no_separator(ports[0] as nat);
    } else if ports.len() >= 2 {
        let front = port_chain_text(ports.drop_last());
        assert(port_chain_text(ports)[front.len() as int] == '.');
    }
}

/// Two chains with the same text are the same chain.
proof fn lemma_port_chain_text_is_injective(ports1: Seq<u8>, ports2: Seq<u8>)
    requires
        port_chain_text(ports1) == port_chain_text(ports2),
    ensures
        ports1 == ports2,
    decreases ports1.len(),
{
    lemma_port_chain_text_dots(ports1);
    lemma_port_chain_text_dots(ports2);
    if ports1.len() == 0 {
        assert(ports1 =~= ports2);
    } else if ports1.len() == 1 {
        lemma_decimal_is_injective(ports1[0] as nat, ports2[0] as nat);
        assert(ports1 =~= ports2);
    } else {
        let last1 = decimal(ports1.last() as nat);
        let last2 = decimal(ports2.last() as nat);
        lemma_decimal_has_no_separator(ports1.last() as nat);
        lemma_decimal_has_no_separator(ports2.last() as nat);
        lemma_split_at_last_separator(
            port_chain_text(ports1.drop_last()),
            last1,
            port_chain_text(ports2.drop_last()),
            last2,
            '.',
        );
        lemma_decimal_is_injective(ports1.last() as nat, ports2.last() as nat);
        lemma_port_chain_text_is_injective(ports1.drop_last(), ports2.drop_last());
        assert(ports1 =~= ports1.drop_last().push(ports1.last()));
        assert(ports2 =~= ports2.drop_last().push(ports2.last()));
    }
}

/// The token tells the place: two devices with the same token sit on the
/// same bus behind the same chain of ports. A device that is moved to
/// another port therefore gets another token.
pub proof fn lemma_path_text_is_injective(bus1: u8, ports1: Seq<u8>, bus2: u8, ports2: Seq<u8>)
    requires
        path_text(bus1, ports1) == path_text(bus2, ports2),
    ensures
        bus1 == bus2,
        ports1 == ports2,
{
    lemma_decimal_has_no_separator(bus1 as nat);
    lemma_decimal_has_no_separator(bus2 as nat);
    lemma_split_at_first_separator(
        decimal(bus1 as nat),
        port_chain_text(ports1),
        decimal(bus2 as nat),
        port_chain_text(ports2),
        '-',
    );
    lemma_decimal_is_injective(bus1 as nat, bus2 as nat);
    lemma_port_chain_text_is_injective(ports1, ports2);
}

} // verus!
