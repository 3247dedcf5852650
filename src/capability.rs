//! The capability table: which native entry points a wrapper declares, the
//! merge of the two ABI-triviality signals, and the reading of a native
//! three-way comparison.
use vstd::prelude::*;
use core::cmp::Ordering;

verus! {

/// Resolution of the ABI-trivial flag: agreement is kept, and on disagreement
/// the explicit override wins.
pub open spec fn merged_trivial(probed: bool, overridden: bool) -> bool {
    if probed == overridden {
        probed
    } else {
        overridden
    }
}

/// Merges the probed triviality of a foreign type with the author's override.
pub fn merge_trivial(probed: bool, overridden: bool) -> (r: bool)
    ensures
        r == merged_trivial(probed, overridden),
{
    if probed == overridden {
        probed
    } else {
        overridden
    }
}

/// The merge on each of its four inputs: it always ends on the override.
pub proof fn lemma_trivial_merge_table()
    ensures
        merged_trivial(true, true) == true,
        merged_trivial(false, false) == false,
        merged_trivial(true, false) == false,
        merged_trivial(false, true) == true,
        forall|p: bool, o: bool| #[trigger] merged_trivial(p, o) == o,
{
}

/// The value a native three-way comparison returns for "incomparable".
pub const INCOMPARABLE: i8 = 127;

/// The ordering a native three-way result stands for: its sign.
pub open spec fn sign_ordering(res: int) -> Ordering {
    if res < 0 {
        Ordering::Less
    } else if res == 0 {
        Ordering::Equal
    } else {
        Ordering::Greater
    }
}

/// Reads the result of a native three-way comparison of a totally ordered type.
pub fn ordering_from_three_way(res: i8) -> (r: Ordering)
    ensures
        r == sign_ordering(res as int),
{
    if res < 0 {
        Ordering::Less
    } else if res == 0 {
        Ordering::Equal
    } else {
        Ordering::Greater
    }
}

/// Reads the result of a native three-way comparison of a partially ordered
/// type: the sentinel `INCOMPARABLE` gives `None`, any other value its sign.
pub fn partial_ordering_from_three_way(res: i8) -> (r: Option<Ordering>)
    ensures
        res == INCOMPARABLE ==> r is None,
        res != INCOMPARABLE ==> r == Some(sign_ordering(res as int)),
{
    if res == INCOMPARABLE {
        None
    } else {
        Some(ordering_from_three_way(res))
    }
}

/// A native function that a wrapper may declare in its bridge module.
#[derive(Clone, Copy, Debug, PartialEq, Eq, Structural)]
pub enum EntryPoint {
    CopyNew,
    MoveNew,
    DefaultNew,
    Destruct,
    OperatorEqual,
    OperatorNotEqual,
    OperatorLessThan,
    OperatorLessThanOrEqual,
    OperatorGreaterThan,
    OperatorGreaterThanOrEqual,
    ThreeWayComparison,
    Hash,
    Debug,
    Display,
}

/// Every entry point, in the order of declaration.
pub open spec fn all_entry_points() -> Seq<EntryPoint> {
    seq![
        EntryPoint::CopyNew,
        EntryPoint::MoveNew,
        EntryPoint::DefaultNew,
        EntryPoint::Destruct,
        EntryPoint::OperatorEqual,
        EntryPoint::OperatorNotEqual,
        EntryPoint::OperatorLessThan,
        EntryPoint::OperatorLessThanOrEqual,
        EntryPoint::OperatorGreaterThan,
        EntryPoint::OperatorGreaterThanOrEqual,
        EntryPoint::ThreeWayComparison,
        EntryPoint::Hash,
        EntryPoint::Debug,
        EntryPoint::Display,
    ]
}

/// The table of entry points, as a vector.
pub fn entry_point_table() -> (r: Vec<EntryPoint>)
    ensures
        r@ == all_entry_points(),
{
    vec![
        EntryPoint::CopyNew,
        EntryPoint::MoveNew,
        EntryPoint::DefaultNew,
        EntryPoint::Destruct,
        EntryPoint::OperatorEqual,
        EntryPoint::OperatorNotEqual,
        EntryPoint::OperatorLessThan,
        EntryPoint::OperatorLessThanOrEqual,
        EntryPoint::OperatorGreaterThan,
        EntryPoint::OperatorGreaterThanOrEqual,
        EntryPoint::ThreeWayComparison,
        EntryPoint::Hash,
        EntryPoint::Debug,
        EntryPoint::Display,
    ]
}

/// Each entry point is in the table.
pub proof fn lemma_table_complete(ep: EntryPoint)
    ensures
        all_entry_points().contains(ep),
{
    let t = all_entry_points();
    let i: int = match ep {
        EntryPoint::CopyNew => 0,
        EntryPoint::MoveNew => 1,
        EntryPoint::DefaultNew => 2,
        EntryPoint::Destruct => 3,
        EntryPoint::OperatorEqual => 4,
        EntryPoint::OperatorNotEqual => 5,
        EntryPoint::OperatorLessThan => 6,
        EntryPoint::OperatorLessThanOrEqual => 7,
        EntryPoint::OperatorGreaterThan => 8,
        EntryPoint::OperatorGreaterThanOrEqual => 9,
        EntryPoint::ThreeWayComparison => 10,
        EntryPoint::Hash => 11,
        EntryPoint::Debug => 12,
        EntryPoint::Display => 13,
    };
    assert(t[i] == ep);
}

impl EntryPoint {
    /// One of the four relational operators.
    pub open spec fn is_relational(self) -> bool {
        ||| self is OperatorLessThan
        ||| self is OperatorLessThanOrEqual
        ||| self is OperatorGreaterThan
        ||| self is OperatorGreaterThanOrEqual
    }

    /// The native symbol's name.
    pub open spec fn spec_name(self) -> Seq<char> {
        match self {
            EntryPoint::CopyNew => "cxx_copy_new"@,
            EntryPoint::MoveNew => "cxx_move_new"@,
            EntryPoint::DefaultNew => "cxx_default_new"@,
            EntryPoint::Destruct => "cxx_destruct"@,
            EntryPoint::OperatorEqual => "cxx_operator_equal"@,
            EntryPoint::OperatorNotEqual => "cxx_operator_not_equal"@,
            EntryPoint::OperatorLessThan => "cxx_operator_less_than"@,
            EntryPoint::OperatorLessThanOrEqual => "cxx_operator_less_than_or_equal"@,
            EntryPoint::OperatorGreaterThan => "cxx_operator_greater_than"@,
            EntryPoint::OperatorGreaterThanOrEqual => "cxx_operator_greater_than_or_equal"@,
            EntryPoint::ThreeWayComparison => "cxx_operator_three_way_comparison"@,
            EntryPoint::Hash => "cxx_hash"@,
            EntryPoint::Debug => "cxx_debug"@,
            EntryPoint::Display => "cxx_display"@,
        }
    }

    pub fn name(self) -> (r: &'static str)
        ensures
            r@ == self.spec_name(),
    {
        match self {
            EntryPoint::CopyNew => "cxx_copy_new",
            EntryPoint::MoveNew => "cxx_move_new",
            EntryPoint::DefaultNew => "cxx_default_new",
            EntryPoint::Destruct => "cxx_destruct",
            EntryPoint::OperatorEqual => "cxx_operator_equal",
            EntryPoint::OperatorNotEqual => "cxx_operator_not_equal",
            EntryPoint::OperatorLessThan => "cxx_operator_less_than",
            EntryPoint::OperatorLessThanOrEqual => "cxx_operator_less_than_or_equal",
            EntryPoint::OperatorGreaterThan => "cxx_operator_greater_than",
            EntryPoint::OperatorGreaterThanOrEqual => "cxx_operator_greater_than_or_equal",
            EntryPoint::ThreeWayComparison => "cxx_operator_three_way_comparison",
            EntryPoint::Hash => "cxx_hash",
            EntryPoint::Debug => "cxx_debug",
            EntryPoint::Display => "cxx_display",
        }
    }

    /// The parameter list of the declaration, for the wrapper type `t`.
    pub open spec fn spec_params(self, t: Seq<char>) -> Seq<char> {
        match self {
            EntryPoint::CopyNew => "This: *mut "@ + t + ", that: &"@ + t,
            EntryPoint::MoveNew => "This: *mut "@ + t + ", that: *mut "@ + t,
            EntryPoint::DefaultNew | EntryPoint::Destruct => "This: *mut "@ + t,
            EntryPoint::Hash | EntryPoint::Debug | EntryPoint::Display => "This: &"@ + t,
            _ => "This: &"@ + t + ", That: &"@ + t,
        }
    }

    /// What follows the parameter list: unsafe-ness is a prefix, the result a suffix.
    pub open spec fn spec_prefix(self) -> Seq<char> {
        match self {
            EntryPoint::CopyNew | EntryPoint::MoveNew | EntryPoint::DefaultNew
            | EntryPoint::Destruct => "unsafe fn "@,
            _ => "fn "@,
        }
    }

    pub open spec fn spec_result(self) -> Seq<char> {
        match self {
            EntryPoint::CopyNew | EntryPoint::MoveNew | EntryPoint::DefaultNew
            | EntryPoint::Destruct => ""@,
            EntryPoint::ThreeWayComparison => " -> i8"@,
            EntryPoint::Hash => " -> usize"@,
            EntryPoint::Debug | EntryPoint::Display => " -> String"@,
            _ => " -> bool"@,
        }
    }

    /// The declaration line in the bridge module, for the generics `g` and the
    /// wrapper type `t`.
    pub open spec fn spec_declaration(self, g: Seq<char>, t: Seq<char>) -> Seq<char> {
        "        "@ + self.spec_prefix() + self.spec_name() + g + "("@ + self.spec_params(t) + ")"@
            + self.spec_result() + ";\n"@
    }

    /// Appends the declaration line of this entry point.
    pub fn push_declaration(self, out: &mut String, g: &str, t: &str)
        ensures
            final(out)@ == old(out)@ + self.spec_declaration(g@, t@),
    {
        out.append("        ");
        match self {
            EntryPoint::CopyNew | EntryPoint::MoveNew | EntryPoint::DefaultNew
            | EntryPoint::Destruct => out.append("unsafe fn "),
            _ => out.append("fn "),
        }
        out.append(self.name());
        out.append(g);
        out.append("(");
        match self {
            EntryPoint::CopyNew => {
                out.append("This: *mut ");
                out.append(t);
                out.append(", that: &");
                out.append(t);
            },
            EntryPoint::MoveNew => {
                out.append("This: *mut ");
                out.append(t);
                out.append(", that: *mut ");
                out.append(t);
            },
            EntryPoint::DefaultNew | EntryPoint::Destruct => {
                out.append("This: *mut ");
                out.append(t);
            },
            EntryPoint::Hash | EntryPoint::Debug | EntryPoint::Display => {
                out.append("This: &");
                out.append(t);
            },
            _ => {
                out.append("This: &");
                out.append(t);
                out.append(", That: &");
                out.append(t);
            },
        }
        out.append(")");
        match self {
            EntryPoint::CopyNew | EntryPoint::MoveNew | EntryPoint::DefaultNew
            | EntryPoint::Destruct => out.append(""),
            EntryPoint::ThreeWayComparison => out.append(" -> i8"),
            EntryPoint::Hash => out.append(" -> usize"),
            EntryPoint::Debug | EntryPoint::Display => out.append(" -> String"),
            _ => out.append(" -> bool"),
        }
        out.append(";\n");
        assert(final(out)@ =~= old(out)@ + self.spec_declaration(g@, t@));
    }
}

} // verus!
