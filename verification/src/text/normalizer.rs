//! Vietnamese text normalization for speech: abbreviations, units, money,
//! dates, times, percentages and Roman numerals are spelled out, by an ordered
//! table of regular-expression rewrites per stage.
use vstd::prelude::*;
use crate::text::pattern::{expand_template, expand_template_from, rewrite_all, rewrite_or_keep};

verus! {

/// A rewrite rule: a pattern and its replacement template.
pub type Rule = (&'static str, &'static str);

/// The rules applied in order.
pub open spec fn apply_rules(rules: Seq<Rule>, text: Seq<char>) -> Seq<char>
    decreases rules.len(),
{
    if rules.len() == 0 {
        text
    } else {
        rewrite_or_keep(rules.last().0@, apply_rules(rules.drop_last(), text), rules.last().1@)
    }
}

/// Applies the rules of `rules` in order.
pub fn apply_rule_table(rules: &Vec<Rule>, text: &str) -> (r: String)
    ensures
        r@ == apply_rules(rules@, text@),
{
    let mut res = text.to_owned();
    let mut i: usize = 0;
    while i < rules.len()
        invariant
            0 <= i <= rules@.len(),
            res@ == apply_rules(rules@.take(i as int), text@),
        decreases rules@.len() - i,
    {
        let (pat, rep) = rules[i];
        res = rewrite_all(pat, res.as_str(), rep);
        proof {
            assert(rules@.take(i + 1).drop_last() =~= rules@.take(i as int));
        }
        i = i + 1;
    }
    proof {
        assert(rules@.take(rules@.len() as int) =~= rules@);
    }
    res
}
/// Abbreviations spelled out (TP.HCM, THPT, v.v. ...).
pub open spec fn abbreviation_rules() -> Seq<Rule> {
    seq![
        ("\\bTP\\.HCM\\b", "Thành phố Hồ Chí Minh"),
        ("\\bTp\\.HCM\\b", "Thành phố Hồ Chí Minh"),
        ("\\bTPHCM\\b", "Thành phố Hồ Chí Minh"),
        ("\\bHN\\b", "Hà Nội"),
        ("\\bTHPT\\b", "Trung học phổ thông"),
        ("\\bTHCS\\b", "Trung học cơ sở"),
        ("\\bĐH\\b", "Đại học"),
        ("\\bUBND\\b", "Ủy ban nhân dân"),
        ("\\bBCH\\b", "Ban chấp hành"),
        ("\\bBTC\\b", "Ban tổ chức"),
        ("\\bv\\.v\\.\\.\\.", "vân vân"),
        ("\\bv\\.v\\b", "vân vân"),
        ("\\bvv\\.\\b", "vân vân"),
        ("\\bKBT\\b", "ki-lô-bắt"),
        ("\\bMB\\b", "mê-ga-bắt"),
        ("\\bGB\\b", "gi-ga-bắt"),
    ]
}

fn abbreviation_table() -> (r: Vec<Rule>)
    ensures
        r@ == abbreviation_rules(),
{
    let v: Vec<Rule> = vec![
        ("\\bTP\\.HCM\\b", "Thành phố Hồ Chí Minh"),
        ("\\bTp\\.HCM\\b", "Thành phố Hồ Chí Minh"),
        ("\\bTPHCM\\b", "Thành phố Hồ Chí Minh"),
        ("\\bHN\\b", "Hà Nội"),
        ("\\bTHPT\\b", "Trung học phổ thông"),
        ("\\bTHCS\\b", "Trung học cơ sở"),
        ("\\bĐH\\b", "Đại học"),
        ("\\bUBND\\b", "Ủy ban nhân dân"),
        ("\\bBCH\\b", "Ban chấp hành"),
        ("\\bBTC\\b", "Ban tổ chức"),
        ("\\bv\\.v\\.\\.\\.", "vân vân"),
        ("\\bv\\.v\\b", "vân vân"),
        ("\\bvv\\.\\b", "vân vân"),
        ("\\bKBT\\b", "ki-lô-bắt"),
        ("\\bMB\\b", "mê-ga-bắt"),
        ("\\bGB\\b", "gi-ga-bắt"),
    ];
    assert(v@ =~= abbreviation_rules());
    v
}

/// Units and scientific symbols read out (km/h, °C, kg ...).
pub open spec fn unit_rules() -> Seq<Rule> {
    seq![
        ("(\\d+(?:[\\.,]\\d+)?)\\s*km/h", "$1 ki-lô-mét trên giờ"),
        ("(\\d+(?:[\\.,]\\d+)?)\\s*m/s", "$1 mét trên giây"),
        ("(?i)(\\d+(?:[\\.,]\\d+)?)\\s*[^\\w\\s]?\\s*C\\b", "$1 độ C"),
        ("(\\d+(?:[\\.,]\\d+)?)\\s*cm\\b", "$1 xen-ti-mét"),
        ("(\\d+(?:[\\.,]\\d+)?)\\s*mm\\b", "$1 mi-li-mét"),
        ("(\\d+(?:[\\.,]\\d+)?)\\s*kg\\b", "$1 ki-lô-gam"),
        ("(\\d+(?:[\\.,]\\d+)?)\\s*g\\b", "$1 gam"),
        ("(\\d+(?:[\\.,]\\d+)?)\\s*m²", "$1 mét vuông"),
        ("(\\d+(?:[\\.,]\\d+)?)\\s*m³", "$1 mét khối"),
    ]
}

fn unit_table() -> (r: Vec<Rule>)
    ensures
        r@ == unit_rules(),
{
    let v: Vec<Rule> = vec![
        ("(\\d+(?:[\\.,]\\d+)?)\\s*km/h", "$1 ki-lô-mét trên giờ"),
        ("(\\d+(?:[\\.,]\\d+)?)\\s*m/s", "$1 mét trên giây"),
        ("(?i)(\\d+(?:[\\.,]\\d+)?)\\s*[^\\w\\s]?\\s*C\\b", "$1 độ C"),
        ("(\\d+(?:[\\.,]\\d+)?)\\s*cm\\b", "$1 xen-ti-mét"),
        ("(\\d+(?:[\\.,]\\d+)?)\\s*mm\\b", "$1 mi-li-mét"),
        ("(\\d+(?:[\\.,]\\d+)?)\\s*kg\\b", "$1 ki-lô-gam"),
        ("(\\d+(?:[\\.,]\\d+)?)\\s*g\\b", "$1 gam"),
        ("(\\d+(?:[\\.,]\\d+)?)\\s*m²", "$1 mét vuông"),
        ("(\\d+(?:[\\.,]\\d+)?)\\s*m³", "$1 mét khối"),
    ];
    assert(v@ =~= unit_rules());
    v
}

/// Amounts of money in đồng, dollars and euros.
pub open spec fn currency_rules() -> Seq<Rule> {
    seq![
        ("(\\d+(?:[\\.,]\\d+)*)\\s*(?:VND|VNĐ|\\bđ\\b|đồng\\b)", "$1 Việt Nam đồng"),
        ("\\$\\s*(\\d+(?:[\\.,]\\d+)*)", "$1 đô la Mỹ"),
        ("(\\d+(?:[\\.,]\\d+)*)\\s*USD", "$1 đô la Mỹ"),
        ("€\\s*(\\d+(?:[\\.,]\\d+)*)", "$1 ơ-rô"),
        ("(\\d+(?:[\\.,]\\d+)*)\\s*EUR", "$1 ơ-rô"),
    ]
}

fn currency_table() -> (r: Vec<Rule>)
    ensures
        r@ == currency_rules(),
{
    let v: Vec<Rule> = vec![
        ("(\\d+(?:[\\.,]\\d+)*)\\s*(?:VND|VNĐ|\\bđ\\b|đồng\\b)", "$1 Việt Nam đồng"),
        ("\\$\\s*(\\d+(?:[\\.,]\\d+)*)", "$1 đô la Mỹ"),
        ("(\\d+(?:[\\.,]\\d+)*)\\s*USD", "$1 đô la Mỹ"),
        ("€\\s*(\\d+(?:[\\.,]\\d+)*)", "$1 ơ-rô"),
        ("(\\d+(?:[\\.,]\\d+)*)\\s*EUR", "$1 ơ-rô"),
    ];
    assert(v@ =~= currency_rules());
    v
}

/// Dates as day, month and year.
pub open spec fn date_rules() -> Seq<Rule> {
    seq![
        ("\\b(\\d{1,2})[/.-](\\d{1,2})[/.-](\\d{4})\\b", "ngày $1 tháng $2 năm $3"),
        ("\\btháng\\s*(\\d{1,2})[/.-](\\d{4})\\b", "tháng $1 năm $2"),
    ]
}

fn date_table() -> (r: Vec<Rule>)
    ensures
        r@ == date_rules(),
{
    let v: Vec<Rule> = vec![
        ("\\b(\\d{1,2})[/.-](\\d{1,2})[/.-](\\d{4})\\b", "ngày $1 tháng $2 năm $3"),
        ("\\btháng\\s*(\\d{1,2})[/.-](\\d{4})\\b", "tháng $1 năm $2"),
    ];
    assert(v@ =~= date_rules());
    v
}

/// The month-and-year rule of the date stage: a match whose first group is the
/// month and whose second is the year becomes "tháng" (month), the month, "năm"
/// (year) and the year, in that order.
pub proof fn lemma_month_year_rule(whole: Seq<char>, month: Seq<char>, year: Seq<char>)
    ensures
        expand_template(date_rules()[1].1@, seq![whole, month, year]) == "tháng "@ + month + " năm "@ + year,
{
    let tm = date_rules()[1].1@;
    let g = seq![whole, month, year];
    assert(tm == "tháng $1 năm $2"@);
    reveal_strlit("tháng $1 năm $2");
    assert(tm =~= seq!['t', 'h', 'á', 'n', 'g', ' ', '$', '1', ' ', 'n', 'ă', 'm', ' ', '$', '2']);
    let e13 = expand_template_from(tm, g, 13);
    assert(e13 == year) by {
        assert(expand_template_from(tm, g, 15) == Seq::<char>::empty());
        assert(year + Seq::<char>::empty() =~= year);
    }
    let e8 = expand_template_from(tm, g, 8);
    assert(e8 == seq![' ', 'n', 'ă', 'm', ' '] + year) by {
        lemma_copied(tm, g, 12);
        lemma_copied(tm, g, 11);
        lemma_copied(tm, g, 10);
        lemma_copied(tm, g, 9);
        lemma_copied(tm, g, 8);
        assert(seq![' '] + (seq!['n'] + (seq!['ă'] + (seq!['m'] + (seq![' '] + year)))) =~= seq![
            ' ',
            'n',
            'ă',
            'm',
            ' ',
        ] + year);
    }
    let e6 = expand_template_from(tm, g, 6);
    assert(e6 == month + e8);
    assert(expand_template_from(tm, g, 0) == seq!['t', 'h', 'á', 'n', 'g', ' '] + e6) by {
        lemma_copied(tm, g, 5);
        lemma_copied(tm, g, 4);
        lemma_copied(tm, g, 3);
        lemma_copied(tm, g, 2);
        lemma_copied(tm, g, 1);
        lemma_copied(tm, g, 0);
        assert(seq!['t'] + (seq!['h'] + (seq!['á'] + (seq!['n'] + (seq!['g'] + (seq![' '] + e6)))))
            =~= seq!['t', 'h', 'á', 'n', 'g', ' '] + e6);
    }
    reveal_strlit("tháng ");
    reveal_strlit(" năm ");
    assert(seq!['t', 'h', 'á', 'n', 'g', ' '] + (month + (seq![' ', 'n', 'ă', 'm', ' '] + year)) =~= "tháng "@
        + month + " năm "@ + year);
}

/// The full-date rule of the date stage: a match whose groups are the day, the
/// month and the year becomes "ngày" (day), the day, "tháng" (month), the month,
/// "năm" (year) and the year, in that order.
pub proof fn lemma_full_date_rule(whole: Seq<char>, day: Seq<char>, month: Seq<char>, year: Seq<char>)
    ensures
        expand_template(date_rules()[0].1@, seq![whole, day, month, year]) == "ngày "@ + day + " tháng "@
            + month + " năm "@ + year,
{
    let tm = date_rules()[0].1@;
    let g = seq![whole, day, month, year];
    assert(tm == "ngày $1 tháng $2 năm $3"@);
    reveal_strlit("ngày $1 tháng $2 năm $3");
    assert(tm =~= seq![
        'n', 'g', 'à', 'y', ' ', '$', '1', ' ', 't', 'h', 'á', 'n', 'g', ' ', '$', '2', ' ', 'n', 'ă', 'm', ' ', '$', '3'
    ]);
    let e21 = expand_template_from(tm, g, 21);
    assert(e21 == year) by {
        assert(expand_template_from(tm, g, 23) == Seq::<char>::empty());
        assert(year + Seq::<char>::empty() =~= year);
    }
    let e16 = expand_template_from(tm, g, 16);
    assert(e16 == seq![' ', 'n', 'ă', 'm', ' '] + year) by {
        lemma_copied(tm, g, 20);
        lemma_copied(tm, g, 19);
        lemma_copied(tm, g, 18);
        lemma_copied(tm, g, 17);
        lemma_copied(tm, g, 16);
        assert(seq![' '] + (seq!['n'] + (seq!['ă'] + (seq!['m'] + (seq![' '] + year)))) =~= seq![
            ' ',
            'n',
            'ă',
            'm',
            ' ',
        ] + year);
    }
    let e14 = expand_template_from(tm, g, 14);
    assert(e14 == month + e16);
    let e7 = expand_template_from(tm, g, 7);
    assert(e7 == seq![' ', 't', 'h', 'á', 'n', 'g', ' '] + e14) by {
        lemma_copied(tm, g, 13);
        lemma_copied(tm, g, 12);
        lemma_copied(tm, g, 11);
        lemma_copied(tm, g, 10);
        lemma_copied(tm, g, 9);
        lemma_copied(tm, g, 8);
        lemma_copied(tm, g, 7);
        assert(seq![' '] + (seq!['t'] + (seq!['h'] + (seq!['á'] + (seq!['n'] + (seq!['g'] + (seq![' ']
            + e14)))))) =~= seq![' ', 't', 'h', 'á', 'n', 'g', ' '] + e14);
    }
    let e5 = expand_template_from(tm, g, 5);
    assert(e5 == day + e7);
    assert(expand_template_from(tm, g, 0) == seq!['n', 'g', 'à', 'y', ' '] + e5) by {
        lemma_copied(tm, g, 4);
        lemma_copied(tm, g, 3);
        lemma_copied(tm, g, 2);
        lemma_copied(tm, g, 1);
        lemma_copied(tm, g, 0);
        assert(seq!['n'] + (seq!['g'] + (seq!['à'] + (seq!['y'] + (seq![' '] + e5)))) =~= seq![
            'n',
            'g',
            'à',
            'y',
            ' ',
        ] + e5);
    }
    reveal_strlit("ngày ");
    reveal_strlit(" tháng ");
    reveal_strlit(" năm ");
    assert(seq!['n', 'g', 'à', 'y', ' '] + (day + (seq![' ', 't', 'h', 'á', 'n', 'g', ' '] + (month + (seq![
        ' ',
        'n',
        'ă',
        'm',
        ' ',
    ] + year)))) =~= "ngày "@ + day + " tháng "@ + month + " năm "@ + year);
}

/// A template character other than `$` is copied.
proof fn lemma_copied(tmpl: Seq<char>, g: Seq<Seq<char>>, i: int)
    requires
        0 <= i < tmpl.len(),
        tmpl[i] != '$',
    ensures
        expand_template_from(tmpl, g, i) == seq![tmpl[i]] + expand_template_from(tmpl, g, i + 1),
{
}

/// Clock times as hours and minutes.
pub open spec fn time_rules() -> Seq<Rule> {
    seq![
        ("\\b(\\d{1,2})h(\\d{1,2})p?\\b", "$1 giờ $2 phút"),
        ("\\b(\\d{1,2})h\\b", "$1 giờ"),
    ]
}

fn time_table() -> (r: Vec<Rule>)
    ensures
        r@ == time_rules(),
{
    let v: Vec<Rule> = vec![
        ("\\b(\\d{1,2})h(\\d{1,2})p?\\b", "$1 giờ $2 phút"),
        ("\\b(\\d{1,2})h\\b", "$1 giờ"),
    ];
    assert(v@ =~= time_rules());
    v
}

/// Percentages.
pub open spec fn percentage_rules() -> Seq<Rule> {
    seq![
        ("(\\d+(?:[\\.,]\\d+)?)\\s*%", "$1 phần trăm"),
    ]
}

fn percentage_table() -> (r: Vec<Rule>)
    ensures
        r@ == percentage_rules(),
{
    let v: Vec<Rule> = vec![
        ("(\\d+(?:[\\.,]\\d+)?)\\s*%", "$1 phần trăm"),
    ];
    assert(v@ =~= percentage_rules());
    v
}

/// Roman numerals from I to XXI as numbers, longest first.
pub open spec fn roman_rules() -> Seq<Rule> {
    seq![
        ("\\bXXI\\b", "21"),
        ("\\bXX\\b", "20"),
        ("\\bXIX\\b", "19"),
        ("\\bXVIII\\b", "18"),
        ("\\bXVII\\b", "17"),
        ("\\bXVI\\b", "16"),
        ("\\bXV\\b", "15"),
        ("\\bXIV\\b", "14"),
        ("\\bXIII\\b", "13"),
        ("\\bXII\\b", "12"),
        ("\\bXI\\b", "11"),
        ("\\bX\\b", "10"),
        ("\\bIX\\b", "9"),
        ("\\bVIII\\b", "8"),
        ("\\bVII\\b", "7"),
        ("\\bVI\\b", "6"),
        ("\\bV\\b", "5"),
        ("\\bIV\\b", "4"),
        ("\\bIII\\b", "3"),
        ("\\bII\\b", "2"),
        ("\\bI\\b", "1"),
    ]
}

fn roman_table() -> (r: Vec<Rule>)
    ensures
        r@ == roman_rules(),
{
    let v: Vec<Rule> = vec![
        ("\\bXXI\\b", "21"),
        ("\\bXX\\b", "20"),
        ("\\bXIX\\b", "19"),
        ("\\bXVIII\\b", "18"),
        ("\\bXVII\\b", "17"),
        ("\\bXVI\\b", "16"),
        ("\\bXV\\b", "15"),
        ("\\bXIV\\b", "14"),
        ("\\bXIII\\b", "13"),
        ("\\bXII\\b", "12"),
        ("\\bXI\\b", "11"),
        ("\\bX\\b", "10"),
        ("\\bIX\\b", "9"),
        ("\\bVIII\\b", "8"),
        ("\\bVII\\b", "7"),
        ("\\bVI\\b", "6"),
        ("\\bV\\b", "5"),
        ("\\bIV\\b", "4"),
        ("\\bIII\\b", "3"),
        ("\\bII\\b", "2"),
        ("\\bI\\b", "1"),
    ];
    assert(v@ =~= roman_rules());
    v
}

/// The whole normalization: the stages in order.
pub open spec fn normalized(text: Seq<char>) -> Seq<char> {
    apply_rules(
        roman_rules(),
        apply_rules(
            percentage_rules(),
            apply_rules(
                time_rules(),
                apply_rules(
                    date_rules(),
                    apply_rules(
                        currency_rules(),
                        apply_rules(unit_rules(), apply_rules(abbreviation_rules(), text)),
                    ),
                ),
            ),
        ),
    )
}

/// Normalizer of Vietnamese text for reading aloud.
pub struct VietnameseNormalizer;

impl VietnameseNormalizer {
    /// Runs the stages in order: abbreviations, units, currencies, dates, times,
    /// percentages, Roman numerals. A pattern that does not compile leaves its rule out.
    pub fn normalize(text: &str) -> (r: String)
        ensures
            r@ == normalized(text@),
    {
        let mut result = apply_rule_table(&abbreviation_table(), text);
        result = apply_rule_table(&unit_table(), result.as_str());
        result = apply_rule_table(&currency_table(), result.as_str());
        result = apply_rule_table(&date_table(), result.as_str());
        result = apply_rule_table(&time_table(), result.as_str());
        result = apply_rule_table(&percentage_table(), result.as_str());
        result = apply_rule_table(&roman_table(), result.as_str());
        result
    }
}

} // verus!
