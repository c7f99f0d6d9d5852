//! The colors of tree-sitter highlight names, as Git's configuration sets them.
use vstd::prelude::*;

use tree_sitter_highlight::HighlightConfiguration;

use crate::style::Color;
use crate::text::{chars_of, has_prefix};
use crate::tui::theme::{color_readable, parse_color, spec_parse_color};

verus! {

/// The prefix of the Git settings that color highlight names.
pub const SYNTAX_KEY_PREFIX: &'static str = "git-review.tree-sitter.";

/// The highlight name a setting stands for: its name without the prefix, dashes read as dots.
pub open spec fn highlight_name(setting: Seq<char>) -> Seq<char> {
    let bare = if has_prefix(setting, SYNTAX_KEY_PREFIX@) {
        setting.skip(SYNTAX_KEY_PREFIX@.len() as int)
    } else {
        setting
    };
    bare.map_values(|c: char| if c == '-' { '.' } else { c })
}

/// The highlight names and colors the settings give, in order: a setting is skipped when its
/// name or value is missing or its value names no color.
pub open spec fn theme_entries(settings: Seq<(Option<String>, Option<String>)>) -> Seq<(Seq<char>, Color)>
    decreases settings.len(),
{
    if settings.len() == 0 {
        Seq::empty()
    } else {
        let prev = theme_entries(settings.drop_last());
        match settings.last() {
            (Some(n), Some(v)) => match spec_parse_color(v@) {
                Ok(c) => prev.push((highlight_name(n@), c)),
                Err(_) => prev,
            },
            _ => prev,
        }
    }
}

/// Every value set can be read without cutting a character.
pub open spec fn settings_readable(settings: Seq<(Option<String>, Option<String>)>) -> bool {
    forall|k: int| 0 <= k < settings.len() ==> ((#[trigger] settings[k]).1 matches Some(v) ==> color_readable(v@))
}

/// The highlight names a highlighter recognizes, each with its color.
pub struct SyntaxTheme {
    names: Vec<String>,
    colors: Vec<Color>,
}

impl View for SyntaxTheme {
    type V = Seq<(Seq<char>, Color)>;

    closed spec fn view(&self) -> Seq<(Seq<char>, Color)> {
        Seq::new(self.names@.len(), |k: int| (self.names@[k]@, self.colors@[k]))
    }
}

/// The configuration that `HighlightConfiguration::configure` makes of `config` when told
/// the highlight names `names`: its queries are kept and each capture is mapped to the index
/// of the name that matches it best.
pub uninterp spec fn configured(config: HighlightConfiguration, names: Seq<Seq<char>>) -> HighlightConfiguration;

/// `tree_sitter_highlight::HighlightConfiguration::configure`: the configuration is told which
/// highlight names to report, the `k`-th name as highlight `k`. What it becomes is only named
/// (see [`configured`]): it depends on the configuration and the names alone. How captures are
/// matched to names is not stated.
#[verifier::external_body]
fn configure(config: &mut HighlightConfiguration, names: &[String])
    ensures
        *final(config) == configured(*old(config), names@.map_values(|n: String| n@)),
{
    config.configure(names);
}

/// The highlight names of a theme, in order.
pub open spec fn theme_names(theme: Seq<(Seq<char>, Color)>) -> Seq<Seq<char>> {
    theme.map_values(|e: (Seq<char>, Color)| e.0)
}

/// The highlight name of a setting (see [`highlight_name`]).
fn name_of(setting: &str) -> (res: String)
    ensures
        res@ == highlight_name(setting@),
{
    let cs = chars_of(setting);
    let pc = chars_of(SYNTAX_KEY_PREFIX);
    let mut is_prefixed = pc.len() <= cs.len();
    let mut k: usize = 0;
    while k < pc.len() && is_prefixed
        invariant
            cs@ == setting@,
            pc@ == SYNTAX_KEY_PREFIX@,
            k <= pc@.len(),
            is_prefixed ==> pc@.len() <= cs@.len() && forall|m: int| 0 <= m < k ==> cs@[m] == pc@[m],
            !is_prefixed ==> !has_prefix(setting@, SYNTAX_KEY_PREFIX@),
        decreases pc@.len() - k,
    {
        if cs[k] != pc[k] {
            assert(setting@.take(pc@.len() as int)[k as int] != SYNTAX_KEY_PREFIX@[k as int]);
            is_prefixed = false;
        }
        k += 1;
    }
    if is_prefixed {
        assert(setting@.take(pc@.len() as int) =~= SYNTAX_KEY_PREFIX@);
    }
    let start: usize = if is_prefixed { pc.len() } else { 0 };
    let ghost bare = if has_prefix(setting@, SYNTAX_KEY_PREFIX@) {
        setting@.skip(SYNTAX_KEY_PREFIX@.len() as int)
    } else {
        setting@
    };
    assert(bare =~= setting@.subrange(start as int, setting@.len() as int));
    let mut out = String::new();
    let mut i: usize = start;
    while i < cs.len()
        invariant
            cs@ == setting@,
            start <= i <= cs@.len(),
            bare == setting@.subrange(start as int, setting@.len() as int),
            out@ == bare.take(i - start).map_values(|c: char| if c == '-' { '.' } else { c }),
        decreases cs@.len() - i,
    {
        let c = cs[i];
        crate::text::push_char(&mut out, if c == '-' { '.' } else { c });
        assert(bare.take(i - start + 1) =~= bare.take(i - start).push(c));
        assert(out@ =~= bare.take(i - start + 1).map_values(|c: char| if c == '-' { '.' } else { c }));
        i += 1;
    }
    assert(bare.take(i - start) =~= bare);
    out
}

impl SyntaxTheme {
    #[verifier::type_invariant]
    spec fn paired(self) -> bool {
        self.names@.len() == self.colors@.len()
    }

    /// The theme the settings give (see [`theme_entries`]): each setting is a pair of its name
    /// and its value, as Git's configuration lists the `git-review.tree-sitter.*` settings.
    pub fn new(settings: &[(Option<String>, Option<String>)]) -> (res: SyntaxTheme)
        requires
            settings_readable(settings@),
        ensures
            res@ == theme_entries(settings@),
    {
        let mut names: Vec<String> = Vec::new();
        let mut colors: Vec<Color> = Vec::new();
        let mut k: usize = 0;
        while k < settings.len()
            invariant
                k <= settings@.len(),
                settings_readable(settings@),
                names@.len() == colors@.len(),
                Seq::new(names@.len(), |j: int| (names@[j]@, colors@[j])) == theme_entries(settings@.take(k as int)),
            decreases settings@.len() - k,
        {
            assert(settings@.take(k as int + 1).drop_last() =~= settings@.take(k as int));
            let ghost before = Seq::new(names@.len(), |j: int| (names@[j]@, colors@[j]));
            match &settings[k] {
                (Some(name), Some(value)) => {
                    assert(settings@[k as int].1 matches Some(v) ==> color_readable(v@));
                    match parse_color(value.as_str()) {
                        Ok(color) => {
                            let n = name_of(name.as_str());
                            names.push(n);
                            colors.push(color);
                            assert(Seq::new(names@.len(), |j: int| (names@[j]@, colors@[j])) =~= before.push((highlight_name(name@), color)));
                        },
                        Err(_) => {},
                    }
                },
                _ => {},
            }
            k += 1;
        }
        assert(settings@.take(settings@.len() as int) =~= settings@);
        SyntaxTheme { names, colors }
    }

    /// How many highlight names the theme has.
    pub fn len(&self) -> (res: usize)
        ensures
            res == self@.len(),
    {
        self.names.len()
    }

    /// The color of highlight `code`.
    pub fn resolve(&self, code: usize) -> (res: Color)
        requires
            code < self@.len(),
        ensures
            res == self@[code as int].1,
    {
        proof {
            use_type_invariant(self);
        }
        self.colors[code]
    }

    /// The colors of the highlights, in order.
    pub fn palette(&self) -> (res: &[Color])
        ensures
            res@.len() == self@.len(),
            forall|k: int| 0 <= k < res@.len() ==> res@[k] == #[trigger] self@[k].1,
    {
        proof {
            use_type_invariant(self);
        }
        self.colors.as_slice()
    }

    /// Tells a highlight configuration to report this theme's names, the `k`-th as highlight `k`.
    pub fn config(&mut self, config: &mut HighlightConfiguration)
        ensures
            final(self)@ == old(self)@,
            *final(config) == configured(*old(config), theme_names(old(self)@)),
    {
        proof {
            use_type_invariant(&*self);
        }
        assert(self.names@.map_values(|n: String| n@) =~= theme_names(self@));
        configure(config, self.names.as_slice());
    }
}

} // verus!
