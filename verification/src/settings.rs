//! A command line as a list of settings, and what their order does.
use vstd::prelude::*;

use crate::args::{
    after_arguments, command_line, defaults, lemma_options_are_dashed, value_option, with_value,
    ArgErrorView, DraftView, ValueOption,
};

verus! {

// ---------------------------------------------------------------------------
// The model
// ---------------------------------------------------------------------------

/// What one or two arguments say together.
pub enum Setting {
    /// An option and its value.
    Value(ValueOption, Seq<char>),
    /// `--quiet`.
    Quiet,
    /// The file to run.
    File(Seq<char>),
}

/// The name of an option.
pub open spec fn option_name(o: ValueOption) -> Seq<char> {
    match o {
        ValueOption::Load => "--load"@,
        ValueOption::Entry => "--entry"@,
        ValueOption::Sp => "--sp"@,
        ValueOption::Max => "--max"@,
        ValueOption::Dump => "--dump"@,
        ValueOption::Cpu => "--cpu"@,
    }
}

/// The arguments of one setting.
pub open spec fn setting_words(s: Setting) -> Seq<Seq<char>> {
    match s {
        Setting::Value(o, v) => seq![option_name(o), v],
        Setting::Quiet => seq!["--quiet"@],
        Setting::File(f) => seq![f],
    }
}

/// The arguments of the settings, in order.
pub open spec fn arguments(ss: Seq<Setting>) -> Seq<Seq<char>>
    decreases ss.len(),
{
    if ss.len() == 0 {
        Seq::empty()
    } else {
        setting_words(ss[0]) + arguments(ss.drop_first())
    }
}

/// The settings that a command line is made of. An option at the end that
/// lacks its value is no setting.
pub open spec fn settings_of(argv: Seq<Seq<char>>) -> Seq<Setting>
    decreases argv.len(),
{
    if argv.len() == 0 {
        Seq::empty()
    } else {
        match value_option(argv[0]) {
            Some(o) => if argv.len() == 1 {
                Seq::empty()
            } else {
                seq![Setting::Value(o, argv[1])] + settings_of(argv.skip(2))
            },
            None => if argv[0] == "--quiet"@ {
                seq![Setting::Quiet] + settings_of(argv.skip(1))
            } else {
                seq![Setting::File(argv[0])] + settings_of(argv.skip(1))
            },
        }
    }
}

/// A file does not look like an option.
pub open spec fn proper(s: Setting) -> bool {
    s matches Setting::File(f) ==> !"--"@.is_prefix_of(f)
}

/// Every setting is proper.
pub open spec fn all_proper(ss: Seq<Setting>) -> bool {
    forall|i: int| 0 <= i < ss.len() ==> proper(#[trigger] ss[i])
}

/// The two settings set the same thing.
pub open spec fn same_subject(s: Setting, t: Setting) -> bool {
    match (s, t) {
        (Setting::Value(o, _), Setting::Value(p, _)) => o == p,
        (Setting::Quiet, Setting::Quiet) => true,
        (Setting::File(_), Setting::File(_)) => true,
        _ => false,
    }
}

/// Nothing is set twice.
pub open spec fn no_repeats(ss: Seq<Setting>) -> bool {
    forall|i: int, j: int|
        0 <= i < ss.len() && 0 <= j < ss.len() && i != j ==> !same_subject(
            #[trigger] ss[i],
            #[trigger] ss[j],
        )
}

/// `a`, after one setting.
spec fn applied(s: Setting, a: DraftView) -> Result<DraftView, ArgErrorView> {
    match s {
        Setting::Value(o, v) => with_value(o, v, a),
        Setting::Quiet => Ok(DraftView { quiet: true, ..a }),
        Setting::File(f) => if a.bin.len() == 0 {
            Ok(DraftView { bin: f, ..a })
        } else {
            Err(ArgErrorView::Unexpected(f))
        },
    }
}

/// `a`, after the settings in order.
spec fn all_applied(ss: Seq<Setting>, a: DraftView) -> Result<DraftView, ArgErrorView>
    decreases ss.len(),
{
    if ss.len() == 0 {
        Ok(a)
    } else {
        match applied(ss[0], a) {
            Ok(b) => all_applied(ss.drop_first(), b),
            Err(e) => Err(e),
        }
    }
}

// ---------------------------------------------------------------------------
// Proofs
// ---------------------------------------------------------------------------

/// An option is found by its name, and `--quiet` is no option with a value.
pub proof fn lemma_option_names(o: ValueOption)
    ensures
        value_option(option_name(o)) == Some(o),
        value_option("--quiet"@) is None,
{
    reveal_strlit("--load");
    reveal_strlit("--entry");
    reveal_strlit("--sp");
    reveal_strlit("--max");
    reveal_strlit("--dump");
    reveal_strlit("--cpu");
    reveal_strlit("--quiet");
    assert("--load"@.len() == 6 && "--entry"@.len() == 7 && "--sp"@.len() == 4);
    assert("--max"@.len() == 5 && "--dump"@.len() == 6 && "--cpu"@.len() == 5);
    assert("--load"@[2] == 'l' && "--dump"@[2] == 'd');
    assert("--max"@[2] == 'm' && "--cpu"@[2] == 'c');
    assert("--entry"@[2] == 'e' && "--quiet"@[2] == 'q' && "--quiet"@.len() == 7);
}

/// Taking the arguments of settings is applying the settings.
proof fn lemma_arguments_apply(ss: Seq<Setting>, a: DraftView)
    requires
        all_proper(ss),
    ensures
        after_arguments(arguments(ss), a) == all_applied(ss, a),
    decreases ss.len(),
{
    if ss.len() > 0 {
        let rest = ss.drop_first();
        assert forall|i: int| 0 <= i < rest.len() implies proper(#[trigger] rest[i]) by {
            assert(rest[i] == ss[i + 1]);
        }
        let argv = arguments(ss);
        assert(proper(ss[0]));
        match ss[0] {
            Setting::Value(o, v) => {
                lemma_option_names(o);
                assert(argv[0] == option_name(o) && argv[1] == v);
                assert(argv.skip(2) == arguments(rest));
                if let Ok(b) = with_value(o, v, a) {
                    lemma_arguments_apply(rest, b);
                }
            },
            Setting::Quiet => {
                lemma_option_names(ValueOption::Load);
                assert(argv[0] == "--quiet"@);
                assert(argv.skip(1) == arguments(rest));
                lemma_arguments_apply(rest, DraftView { quiet: true, ..a });
            },
            Setting::File(f) => {
                lemma_options_are_dashed(f);
                assert(argv[0] == f);
                assert(argv.skip(1) == arguments(rest));
                lemma_arguments_apply(rest, DraftView { bin: f, ..a });
            },
        }
    }
}

/// Two settings that set different things can be exchanged.
proof fn lemma_exchange(s: Setting, t: Setting, a: DraftView)
    requires
        !same_subject(s, t),
        applied(s, a) is Ok,
        applied(t, applied(s, a)->Ok_0) is Ok,
    ensures
        applied(t, a) is Ok,
        applied(s, applied(t, a)->Ok_0) == applied(t, applied(s, a)->Ok_0),
{
}

/// A setting can be brought to the front.
proof fn lemma_to_front(ss: Seq<Setting>, k: int, a: DraftView)
    requires
        0 <= k < ss.len(),
        no_repeats(ss),
        all_applied(ss, a) is Ok,
    ensures
        all_applied(seq![ss[k]] + ss.remove(k), a) == all_applied(ss, a),
    decreases k,
{
    let front = seq![ss[k]] + ss.remove(k);
    assert(front.drop_first() == ss.remove(k));
    if k == 0 {
        assert(front =~= ss);
    } else {
        let b = applied(ss[0], a)->Ok_0;
        let rest = ss.drop_first();
        assert forall|i: int, j: int|
            0 <= i < rest.len() && 0 <= j < rest.len() && i != j implies !same_subject(
            #[trigger] rest[i],
            #[trigger] rest[j],
        ) by {
            assert(rest[i] == ss[i + 1] && rest[j] == ss[j + 1]);
        }
        lemma_to_front(rest, k - 1, b);
        let inner = seq![rest[k - 1]] + rest.remove(k - 1);
        assert(inner[0] == ss[k]);
        assert(inner.drop_first() == rest.remove(k - 1));
        assert(!same_subject(ss[0], ss[k]));
        assert(all_applied(ss, a) == all_applied(inner, b));
        lemma_exchange(ss[0], ss[k], a);
        let c = applied(ss[k], b)->Ok_0;
        let d = applied(ss[k], a)->Ok_0;
        assert(all_applied(inner, b) == all_applied(rest.remove(k - 1), c));
        assert(front[0] == ss[k]);
        assert(all_applied(front, a) == all_applied(ss.remove(k), d));
        assert(ss.remove(k)[0] == ss[0]);
        assert(ss.remove(k).drop_first() =~= rest.remove(k - 1));
    }
}

/// Settings in another order come to the same.
proof fn lemma_rearranged(ss: Seq<Setting>, other: Seq<Setting>, a: DraftView)
    requires
        no_repeats(ss),
        all_applied(ss, a) is Ok,
        other.to_multiset() == ss.to_multiset(),
    ensures
        all_applied(other, a) == all_applied(ss, a),
    decreases ss.len(),
{
    ss.to_multiset_ensures();
    other.to_multiset_ensures();
    assert(ss.len() == other.len());
    if ss.len() > 0 {
        let x = other[0];
        assert(other.contains(x));
        assert(other.to_multiset().count(x) > 0);
        assert(ss.contains(x));
        let k = choose|k: int| 0 <= k < ss.len() && ss[k] == x;
        lemma_to_front(ss, k, a);
        let front = seq![ss[k]] + ss.remove(k);
        assert(front[0] == x);
        assert(front.drop_first() == ss.remove(k));
        let b = applied(x, a)->Ok_0;
        let rest = ss.remove(k);
        assert forall|i: int, j: int|
            0 <= i < rest.len() && 0 <= j < rest.len() && i != j implies !same_subject(
            #[trigger] rest[i],
            #[trigger] rest[j],
        ) by {
            let p = if i < k { i } else { i + 1 };
            let q = if j < k { j } else { j + 1 };
            assert(rest[i] == ss[p] && rest[j] == ss[q]);
        }
        assert(other.remove(0) =~= other.drop_first());
        assert(other.remove(0).to_multiset() == other.to_multiset().remove(x));
        assert(ss.remove(k).to_multiset() == ss.to_multiset().remove(ss[k]));
        lemma_rearranged(rest, other.drop_first(), b);
    }
}

/// Reordered settings are proper where the settings are.
proof fn lemma_rearranged_proper(ss: Seq<Setting>, other: Seq<Setting>)
    requires
        all_proper(ss),
        other.to_multiset() == ss.to_multiset(),
    ensures
        all_proper(other),
{
    ss.to_multiset_ensures();
    other.to_multiset_ensures();
    assert forall|i: int| 0 <= i < other.len() implies proper(#[trigger] other[i]) by {
        assert(other.contains(other[i]));
        assert(other.to_multiset().count(other[i]) > 0);
        assert(ss.contains(other[i]));
        let k = choose|k: int| 0 <= k < ss.len() && ss[k] == other[i];
        assert(proper(ss[k]));
    }
}

/// A setting in front puts its arguments in front.
proof fn lemma_in_front(s: Setting, rest: Seq<Setting>)
    requires
        proper(s),
        all_proper(rest),
    ensures
        arguments(seq![s] + rest) == setting_words(s) + arguments(rest),
        all_proper(seq![s] + rest),
{
    let ss = seq![s] + rest;
    assert(ss.drop_first() =~= rest);
    assert(ss[0] == s);
    assert forall|i: int| 0 <= i < ss.len() implies proper(#[trigger] ss[i]) by {
        if i > 0 {
            assert(ss[i] == rest[i - 1]);
        }
    }
}

/// The name of the option that an argument names is the argument.
proof fn lemma_name_of_option(arg: Seq<char>)
    ensures
        value_option(arg) matches Some(o) ==> option_name(o) == arg,
{
}

/// Arguments are the first of them and the rest.
proof fn lemma_split(argv: Seq<Seq<char>>)
    ensures
        argv.len() > 0 ==> argv == seq![argv[0]] + argv.skip(1),
        argv.len() > 1 ==> argv == seq![argv[0], argv[1]] + argv.skip(2),
{
    if argv.len() > 0 {
        assert(argv =~= seq![argv[0]] + argv.skip(1));
    }
    if argv.len() > 1 {
        assert(argv =~= seq![argv[0], argv[1]] + argv.skip(2));
    }
}

/// Accepted arguments are the arguments of their settings.
#[verifier::spinoff_prover]
proof fn lemma_settings_of(argv: Seq<Seq<char>>, a: DraftView)
    requires
        after_arguments(argv, a) is Ok,
    ensures
        arguments(settings_of(argv)) == argv,
        all_proper(settings_of(argv)),
    decreases argv.len(),
{
    if argv.len() == 0 {
        assert(argv =~= Seq::empty());
    } else {
        lemma_split(argv);
        lemma_name_of_option(argv[0]);
        match value_option(argv[0]) {
            Some(o) => {
                let rest = argv.skip(2);
                lemma_settings_of(rest, with_value(o, argv[1], a)->Ok_0);
                lemma_in_front(Setting::Value(o, argv[1]), settings_of(rest));
            },
            None => {
                let rest = argv.skip(1);
                if argv[0] == "--quiet"@ {
                    lemma_settings_of(rest, DraftView { quiet: true, ..a });
                    lemma_in_front(Setting::Quiet, settings_of(rest));
                } else {
                    lemma_settings_of(rest, DraftView { bin: argv[0], ..a });
                    lemma_in_front(Setting::File(argv[0]), settings_of(rest));
                }
            },
        }
    }
}

// ---------------------------------------------------------------------------
// Laws
// ---------------------------------------------------------------------------

/// An accepted command line is made of settings, and of nothing else.
pub proof fn law_accepted_line_is_made_of_settings(argv: Seq<Seq<char>>)
    requires
        command_line(argv) is Ok,
    ensures
        arguments(settings_of(argv)) == argv,
        all_proper(settings_of(argv)),
{
    lemma_settings_of(argv, defaults());
}

/// Where nothing is set twice, the order of the options and of the file does
/// not matter: an accepted command line with its settings in any other order
/// is accepted too, and asks for the same.
pub proof fn law_order_does_not_matter(argv: Seq<Seq<char>>, other: Seq<Setting>)
    requires
        command_line(argv) is Ok,
        no_repeats(settings_of(argv)),
        other.to_multiset() == settings_of(argv).to_multiset(),
    ensures
        command_line(arguments(other)) == command_line(argv),
{
    let ss = settings_of(argv);
    lemma_settings_of(argv, defaults());
    lemma_arguments_apply(ss, defaults());
    lemma_rearranged_proper(ss, other);
    lemma_arguments_apply(other, defaults());
    lemma_rearranged(ss, other, defaults());
}

} // verus!
