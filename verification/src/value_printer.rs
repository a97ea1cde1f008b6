//! The value layout engine: renders a `StructuredValue` compactly on one
//! line or expanded across indented lines, with optional colorization.
//!
//! The exact output text is defined by the `render_value` family of spec
//! functions; the executable printer is verified to produce it.

use crate::value::all_scalar_values;
use crate::value::all_scalars;
use crate::value::depth;
use crate::value::entries_depth;
use crate::value::is_scalar;
use crate::value::items_depth;
use crate::value::StructuredValue;
use vstd::prelude::*;
use vstd::string::StringExecFns;

verus! {

/// Configuration for the layout engine.
#[derive(Clone, Copy)]
pub struct ValuePrinterConfig {
    /// Whether to wrap tokens in ANSI color sequences.
    pub use_color: bool,
    /// Number of space characters per indentation level.
    pub indent_size: usize,
    /// Strict upper bound on the estimated width of a compact object.
    pub max_width: usize,
}

impl Default for ValuePrinterConfig {
    /// The default configuration: no color, 2-space indent, width 80.
    fn default() -> (r: Self)
        ensures
            !r.use_color,
            r.indent_size == 2,
            r.max_width == 80,
    {
        ValuePrinterConfig { use_color: false, indent_size: 2, max_width: 80 }
    }
}

/// The layout engine: a configuration together with the token lead-in
/// sequences, which are empty exactly when color is disabled, so that one
/// rendering path serves both modes.
pub struct ValuePrinter {
    pub config: ValuePrinterConfig,
    pub key_color: String,
    pub string_color: String,
    pub number_color: String,
    pub boolean_color: String,
    pub null_color: String,
    pub punctuation_color: String,
    pub reset_color: String,
}

impl ValuePrinter {
    /// A printer for the given configuration, its color tokens fixed by the
    /// `use_color` flag.
    pub fn new(config: ValuePrinterConfig) -> (r: Self)
        ensures
            r.config == config,
            config.use_color ==> {
                &&& r.key_color@ == "\x1b[38;5;33m"@
                &&& r.string_color@ == "\x1b[38;5;2m"@
                &&& r.number_color@ == "\x1b[38;5;11m"@
                &&& r.boolean_color@ == "\x1b[38;5;9m"@
                &&& r.null_color@ == "\x1b[38;5;8m"@
                &&& r.punctuation_color@ == "\x1b[38;5;7m"@
                &&& r.reset_color@ == "\x1b[m"@
            },
            !config.use_color ==> {
                &&& r.key_color@ == Seq::<char>::empty()
                &&& r.string_color@ == Seq::<char>::empty()
                &&& r.number_color@ == Seq::<char>::empty()
                &&& r.boolean_color@ == Seq::<char>::empty()
                &&& r.null_color@ == Seq::<char>::empty()
                &&& r.punctuation_color@ == Seq::<char>::empty()
                &&& r.reset_color@ == Seq::<char>::empty()
            },
            printer_newline_free(r),
    {
        proof {
            reveal_strlit("\x1b[38;5;33m");
            reveal_strlit("\x1b[38;5;2m");
            reveal_strlit("\x1b[38;5;11m");
            reveal_strlit("\x1b[38;5;9m");
            reveal_strlit("\x1b[38;5;8m");
            reveal_strlit("\x1b[38;5;7m");
            reveal_strlit("\x1b[m");
        }
        if config.use_color {
            ValuePrinter {
                config,
                key_color: String::from_str("\x1b[38;5;33m"),
                string_color: String::from_str("\x1b[38;5;2m"),
                number_color: String::from_str("\x1b[38;5;11m"),
                boolean_color: String::from_str("\x1b[38;5;9m"),
                null_color: String::from_str("\x1b[38;5;8m"),
                punctuation_color: String::from_str("\x1b[38;5;7m"),
                reset_color: String::from_str("\x1b[m"),
            }
        } else {
            ValuePrinter {
                config,
                key_color: String::new(),
                string_color: String::new(),
                number_color: String::new(),
                boolean_color: String::new(),
                null_color: String::new(),
                punctuation_color: String::new(),
                reset_color: String::new(),
            }
        }
    }
}

/// A punctuation token: the text wrapped in the punctuation color and the
/// shared reset sequence.
pub open spec fn punct_tok(p: ValuePrinter, t: Seq<char>) -> Seq<char> {
    p.punctuation_color@ + t + p.reset_color@
}

/// An object key followed by its colon and separating space.
pub open spec fn key_tok(p: ValuePrinter, k: Seq<char>) -> Seq<char> {
    p.key_color@ + k + p.punctuation_color@ + ":"@ + p.reset_color@ + " "@
}

/// The rendering of a scalar value: its token text wrapped in the token's
/// color and the shared reset sequence.
pub open spec fn render_scalar(p: ValuePrinter, v: StructuredValue) -> Seq<char>
    recommends
        is_scalar(v),
{
    match v {
        StructuredValue::Null => p.null_color@ + "null"@ + p.reset_color@,
        StructuredValue::Boolean(b) => p.boolean_color@ + (if b {
            "true"@
        } else {
            "false"@
        }) + p.reset_color@,
        StructuredValue::Number(s) => p.number_color@ + s@ + p.reset_color@,
        StructuredValue::Text(s) => p.string_color@ + "\""@ + s@ + "\""@ + p.reset_color@,
        _ => Seq::empty(),
    }
}

/// The indentation for a nesting level: `level` repetitions of the
/// configured number of spaces.
pub open spec fn indent_chars(p: ValuePrinter, level: nat) -> Seq<char>
    decreases level,
{
    if level == 0 {
        Seq::empty()
    } else {
        indent_chars(p, (level - 1) as nat) + space_seq(p.config.indent_size as nat)
    }
}

/// A sequence of `n` space characters.
pub open spec fn space_seq(n: nat) -> Seq<char> {
    Seq::new(n, |i: int| ' ')
}

/// The estimated rendered width of one value, used only by the object
/// compactness heuristic: exact for scalars, a rough per-element multiplier
/// for containers.
pub open spec fn estimate_value_length(v: StructuredValue) -> int {
    match v {
        StructuredValue::Null => 4,
        StructuredValue::Boolean(b) => if b {
            4
        } else {
            5
        },
        StructuredValue::Number(s) => s@.len() as int,
        StructuredValue::Text(s) => s@.len() as int + 2,
        StructuredValue::Array(items) => items@.len() as int * 10,
        StructuredValue::Object(entries) => entries@.len() as int * 20,
    }
}

/// The estimated width of an object's entries: key length, value estimate,
/// and 5 for quotes, colon, comma and spaces, summed over the entries.
pub open spec fn estimate_entries_length(entries: Seq<(String, StructuredValue)>) -> int
    decreases entries.len(),
{
    if entries.len() == 0 {
        0
    } else {
        estimate_entries_length(entries.drop_last()) + entries.last().0@.len()
            + estimate_value_length(entries.last().1) + 5
    }
}

/// An array renders compactly iff it is empty or all its elements are
/// scalars; size plays no role.
pub open spec fn array_compact(items: Seq<StructuredValue>) -> bool {
    items.len() == 0 || all_scalars(items)
}

/// An object renders compactly iff it is empty, or all its values are
/// scalars and the estimated width stays strictly under the maximum.
pub open spec fn object_compact(p: ValuePrinter, entries: Seq<(String, StructuredValue)>) -> bool {
    entries.len() == 0 || (all_scalar_values(entries) && estimate_entries_length(entries)
        < p.config.max_width)
}

/// The rendering of one value at a nesting level.
pub open spec fn render_value(p: ValuePrinter, v: StructuredValue, indent: nat) -> Seq<char>
    decreases v,
{
    match v {
        StructuredValue::Array(items) => punct_tok(p, "["@) + (if items@.len() == 0 {
            Seq::<char>::empty()
        } else if all_scalars(items@) {
            render_items_compact(p, items@, indent)
        } else {
            render_items_expanded(p, items@, indent) + "\n"@ + indent_chars(p, indent)
        }) + punct_tok(p, "]"@),
        StructuredValue::Object(entries) => punct_tok(p, "{"@) + (if entries@.len() == 0 {
            Seq::<char>::empty()
        } else if object_compact(p, entries@) {
            render_entries_compact(p, entries@, indent)
        } else {
            render_entries_expanded(p, entries@, indent) + "\n"@ + indent_chars(p, indent)
        }) + punct_tok(p, "}"@),
        _ => render_scalar(p, v),
    }
}

/// An integer clamped to the machine word range, for the saturating width
/// arithmetic of the compactness heuristic.
pub open spec fn clamp_len(x: int) -> int {
    if x <= usize::MAX as int {
        x
    } else {
        usize::MAX as int
    }
}

/// Clamping commutes with adding a nonnegative term.
proof fn lemma_clamp_add(a: int, b: int)
    requires
        a >= 0,
        b >= 0,
    ensures
        clamp_len(clamp_len(a) + b) == clamp_len(a + b),
        clamp_len(a + clamp_len(b)) == clamp_len(a + b),
{
}

/// The entries estimate is never negative.
proof fn lemma_estimate_entries_nonneg(entries: Seq<(String, StructuredValue)>)
    ensures
        estimate_entries_length(entries) >= 0,
    decreases entries.len(),
{
    if entries.len() > 0 {
        lemma_estimate_entries_nonneg(entries.drop_last());
    }
}

fn sat_add(a: usize, b: usize) -> (r: usize)
    ensures
        r as int == clamp_len(a as int + b as int),
{
    if a <= usize::MAX - b {
        a + b
    } else {
        usize::MAX
    }
}

/// No element of an array is deeper than the array's element depth.
proof fn lemma_items_depth_bound(items: Seq<StructuredValue>, j: int)
    requires
        0 <= j < items.len(),
    ensures
        depth(items[j]) <= items_depth(items),
    decreases items.len(),
{
    if j > 0 {
        lemma_items_depth_bound(items.subrange(1, items.len() as int), j - 1);
        assert(items.subrange(1, items.len() as int)[j - 1] == items[j]);
    }
}

/// No value of an object is deeper than the object's value depth.
proof fn lemma_entries_depth_bound(entries: Seq<(String, StructuredValue)>, j: int)
    requires
        0 <= j < entries.len(),
    ensures
        depth(entries[j].1) <= entries_depth(entries),
    decreases entries.len(),
{
    if j > 0 {
        lemma_entries_depth_bound(entries.subrange(1, entries.len() as int), j - 1);
        assert(entries.subrange(1, entries.len() as int)[j - 1] == entries[j]);
    }
}

impl ValuePrinter {
    /// Appends one punctuation token.
    fn punct(&self, out: &mut String, t: &str)
        ensures
            final(out)@ == old(out)@ + punct_tok(*self, t@),
    {
        let ghost o0 = out@;
        out.append(self.punctuation_color.as_str());
        out.append(t);
        out.append(self.reset_color.as_str());
        proof {
            assert(out@ =~= o0 + punct_tok(*self, t@));
        }
    }

    /// Appends one object key with its colon and separating space.
    fn write_key(&self, out: &mut String, k: &str)
        ensures
            final(out)@ == old(out)@ + key_tok(*self, k@),
    {
        let ghost o0 = out@;
        out.append(self.key_color.as_str());
        out.append(k);
        out.append(self.punctuation_color.as_str());
        out.append(":");
        out.append(self.reset_color.as_str());
        out.append(" ");
        proof {
            assert(out@ =~= o0 + key_tok(*self, k@));
        }
    }

    /// Appends the rendering of one scalar value.
    fn write_scalar(&self, out: &mut String, v: &StructuredValue)
        requires
            is_scalar(*v),
        ensures
            final(out)@ == old(out)@ + render_scalar(*self, *v),
    {
        let ghost o0 = out@;
        match v {
            StructuredValue::Null => {
                out.append(self.null_color.as_str());
                out.append("null");
                out.append(self.reset_color.as_str());
            },
            StructuredValue::Boolean(b) => {
                out.append(self.boolean_color.as_str());
                if *b {
                    out.append("true");
                } else {
                    out.append("false");
                }
                out.append(self.reset_color.as_str());
            },
            StructuredValue::Number(s) => {
                out.append(self.number_color.as_str());
                out.append(s.as_str());
                out.append(self.reset_color.as_str());
            },
            StructuredValue::Text(s) => {
                out.append(self.string_color.as_str());
                out.append("\"");
                out.append(s.as_str());
                out.append("\"");
                out.append(self.reset_color.as_str());
            },
            _ => {
                proof {
                    assert(false);
                }
            },
        }
        proof {
            assert(out@ =~= o0 + render_scalar(*self, *v));
        }
    }

    /// Appends the indentation for a nesting level.
    pub fn write_indent(&self, out: &mut String, level: usize)
        ensures
            final(out)@ == old(out)@ + indent_chars(*self, level as nat),
    {
        let ghost o0 = out@;
        let mut l: usize = 0;
        while l < level
            invariant
                l <= level,
                out@ == o0 + indent_chars(*self, l as nat),
            decreases level - l,
        {
            let ghost o1 = out@;
            let mut k: usize = 0;
            while k < self.config.indent_size
                invariant
                    k <= self.config.indent_size,
                    out@ == o1 + space_seq(k as nat),
                decreases self.config.indent_size - k,
            {
                out.append(" ");
                proof {
                    reveal_strlit(" ");
                    assert(" "@ =~= seq![' ']);
                    assert(o1 + space_seq(k as nat) + " "@ =~= o1 + space_seq((k + 1) as nat));
                }
                k = k + 1;
            }
            proof {
                assert(o1 + space_seq(self.config.indent_size as nat) =~= o0 + indent_chars(
                    *self,
                    (l + 1) as nat,
                ));
            }
            l = l + 1;
        }
    }

    /// Whether an array formats compactly: empty, or scalars throughout.
    fn should_format_compact_array(&self, items: &Vec<StructuredValue>) -> (r: bool)
        ensures
            r == array_compact(items@),
    {
        let mut j: usize = 0;
        while j < items.len()
            invariant
                j <= items@.len(),
                forall|t: int| 0 <= t < j ==> is_scalar(items@[t]),
            decreases items@.len() - j,
        {
            if !items[j].is_scalar_value() {
                return false;
            }
            j = j + 1;
        }
        true
    }

    /// The clamped estimated width of one value.
    fn estimate_len(&self, v: &StructuredValue) -> (r: usize)
        ensures
            r as int == clamp_len(estimate_value_length(*v)),
    {
        match v {
            StructuredValue::Null => 4,
            StructuredValue::Boolean(b) => if *b {
                4
            } else {
                5
            },
            StructuredValue::Number(s) => s.as_str().unicode_len(),
            StructuredValue::Text(s) => sat_add(s.as_str().unicode_len(), 2),
            StructuredValue::Array(items) => {
                let n = items.len();
                if n <= usize::MAX / 10 {
                    proof {
                        assert(n * 10 <= (usize::MAX / 10) * 10) by (nonlinear_arith)
                            requires
                                0 <= n <= usize::MAX / 10,
                        ;
                    }
                    n * 10
                } else {
                    proof {
                        assert(n * 10 > usize::MAX) by (nonlinear_arith)
                            requires
                                n > usize::MAX / 10,
                        ;
                    }
                    usize::MAX
                }
            },
            StructuredValue::Object(entries) => {
                let n = entries.len();
                if n <= usize::MAX / 20 {
                    proof {
                        assert(n * 20 <= (usize::MAX / 20) * 20) by (nonlinear_arith)
                            requires
                                0 <= n <= usize::MAX / 20,
                        ;
                    }
                    n * 20
                } else {
                    proof {
                        assert(n * 20 > usize::MAX) by (nonlinear_arith)
                            requires
                                n > usize::MAX / 20,
                        ;
                    }
                    usize::MAX
                }
            },
        }
    }

    /// Whether an object formats compactly: empty, or scalar values whose
    /// estimated width stays strictly under the configured maximum.
    fn should_format_compact_object(&self, entries: &Vec<(String, StructuredValue)>) -> (r: bool)
        ensures
            r == object_compact(*self, entries@),
    {
        if entries.len() == 0 {
            return true;
        }
        let mut j: usize = 0;
        while j < entries.len()
            invariant
                j <= entries@.len(),
                forall|t: int| 0 <= t < j ==> is_scalar(entries@[t].1),
            decreases entries@.len() - j,
        {
            if !entries[j].1.is_scalar_value() {
                return false;
            }
            j = j + 1;
        }
        let mut total: usize = 0;
        j = 0;
        while j < entries.len()
            invariant
                j <= entries@.len(),
                total as int == clamp_len(estimate_entries_length(entries@.subrange(0, j as int))),
            decreases entries@.len() - j,
        {
            let key_len = entries[j].0.as_str().unicode_len();
            let val_est = self.estimate_len(&entries[j].1);
            let term = sat_add(sat_add(key_len, val_est), 5);
            let ghost prefix = entries@.subrange(0, j as int);
            total = sat_add(total, term);
            proof {
                assert(entries@.subrange(0, j as int + 1).drop_last() =~= prefix);
                assert(entries@.subrange(0, j as int + 1).last() == entries@[j as int]);
                lemma_estimate_entries_nonneg(prefix);
                lemma_clamp_add(estimate_value_length(entries@[j as int].1), key_len as int);
                lemma_clamp_add(
                    key_len as int + estimate_value_length(entries@[j as int].1),
                    5,
                );
                lemma_clamp_add(
                    estimate_entries_length(prefix),
                    key_len as int + estimate_value_length(entries@[j as int].1) + 5,
                );
                lemma_clamp_add(
                    estimate_entries_length(prefix) + key_len as int + estimate_value_length(
                        entries@[j as int].1,
                    ) + 5,
                    0,
                );
            }
            j = j + 1;
        }
        proof {
            assert(entries@.subrange(0, entries@.len() as int) =~= entries@);
        }
        total < self.config.max_width
    }
}

/// Compact array elements: the renderings joined by `", "` punctuation.
pub open spec fn render_items_compact(
    p: ValuePrinter,
    items: Seq<StructuredValue>,
    indent: nat,
) -> Seq<char>
    decreases items,
{
    if items.len() == 0 {
        Seq::empty()
    } else {
        render_items_compact(p, items.drop_last(), indent) + (if items.len() == 1 {
            Seq::<char>::empty()
        } else {
            punct_tok(p, ", "@)
        }) + render_value(p, items.last(), indent)
    }
}

/// Expanded array elements: each on its own line one level deeper, a comma
/// after every element but the last.
pub open spec fn render_items_expanded(
    p: ValuePrinter,
    items: Seq<StructuredValue>,
    indent: nat,
) -> Seq<char>
    decreases items,
{
    if items.len() == 0 {
        Seq::empty()
    } else {
        render_items_expanded(p, items.drop_last(), indent) + (if items.len() == 1 {
            Seq::<char>::empty()
        } else {
            punct_tok(p, ","@)
        }) + "\n"@ + indent_chars(p, indent + 1) + render_value(p, items.last(), indent + 1)
    }
}

/// Compact object entries: key tokens and values joined by `", "`.
pub open spec fn render_entries_compact(
    p: ValuePrinter,
    entries: Seq<(String, StructuredValue)>,
    indent: nat,
) -> Seq<char>
    decreases entries,
{
    if entries.len() == 0 {
        Seq::empty()
    } else {
        render_entries_compact(p, entries.drop_last(), indent) + (if entries.len() == 1 {
            Seq::<char>::empty()
        } else {
            punct_tok(p, ", "@)
        }) + key_tok(p, entries.last().0@) + render_value(p, entries.last().1, indent)
    }
}

/// Expanded object entries: each key and value on its own line one level
/// deeper, a comma after every entry but the last.
pub open spec fn render_entries_expanded(
    p: ValuePrinter,
    entries: Seq<(String, StructuredValue)>,
    indent: nat,
) -> Seq<char>
    decreases entries,
{
    if entries.len() == 0 {
        Seq::empty()
    } else {
        render_entries_expanded(p, entries.drop_last(), indent) + (if entries.len() == 1 {
            Seq::<char>::empty()
        } else {
            punct_tok(p, ","@)
        }) + "\n"@ + indent_chars(p, indent + 1) + key_tok(p, entries.last().0@) + render_value(
            p,
            entries.last().1,
            indent + 1,
        )
    }
}

/// Object contents without braces: the first `k` entries, each on its own
/// line at the base indentation, values one level deeper, a comma after
/// every entry but the last of the whole object.
pub open spec fn render_contents_upto(
    p: ValuePrinter,
    entries: Seq<(String, StructuredValue)>,
    base: nat,
    k: int,
) -> Seq<char>
    recommends
        0 <= k <= entries.len(),
    decreases k,
{
    if k <= 0 {
        Seq::empty()
    } else {
        render_contents_upto(p, entries, base, k - 1) + indent_chars(p, base) + key_tok(
            p,
            entries[k - 1].0@,
        ) + render_value(p, entries[k - 1].1, base + 1) + (if k < entries.len() {
            punct_tok(p, ","@)
        } else {
            Seq::<char>::empty()
        }) + "\n"@
    }
}

/// Object contents without the surrounding braces, at a base indentation:
/// one indented line of joined entries when compact, one line per entry
/// when expanded, nothing for an empty object.
pub open spec fn render_object_contents(
    p: ValuePrinter,
    entries: Seq<(String, StructuredValue)>,
    base: nat,
) -> Seq<char> {
    if entries.len() == 0 {
        Seq::empty()
    } else if object_compact(p, entries) {
        indent_chars(p, base) + render_entries_compact(p, entries, base)
    } else {
        render_contents_upto(p, entries, base, entries.len() as int)
    }
}

impl ValuePrinter {
    /// Appends the rendering of one value at a nesting level.
    fn print_value(&self, out: &mut String, v: &StructuredValue, indent: usize)
        requires
            indent + depth(*v) <= usize::MAX,
        ensures
            final(out)@ == old(out)@ + render_value(*self, *v, indent as nat),
        decreases *v,
    {
        match v {
            StructuredValue::Array(items) => {
                self.print_array(out, items, indent);
            },
            StructuredValue::Object(entries) => {
                self.print_object(out, entries, indent);
            },
            _ => {
                self.write_scalar(out, v);
            },
        }
    }

    /// Appends the rendering of an array, brackets included.
    fn print_array(&self, out: &mut String, items: &Vec<StructuredValue>, indent: usize)
        requires
            indent + 1 + items_depth(items@) <= usize::MAX,
        ensures
            final(out)@ == old(out)@ + render_value(
                *self,
                StructuredValue::Array(*items),
                indent as nat,
            ),
        decreases items@,
    {
        let ghost o0 = out@;
        let ghost target = render_value(*self, StructuredValue::Array(*items), indent as nat);
        self.punct(out, "[");
        if items.len() == 0 {
            self.punct(out, "]");
            proof {
                assert(out@ =~= o0 + target);
            }
            return ;
        }
        let compact = self.should_format_compact_array(items);
        if compact {
            let mut j: usize = 0;
            while j < items.len()
                invariant
                    j <= items@.len(),
                    items@.len() > 0,
                    all_scalars(items@),
                    indent + 1 + items_depth(items@) <= usize::MAX,
                    out@ == o0 + punct_tok(*self, "["@) + render_items_compact(
                        *self,
                        items@.subrange(0, j as int),
                        indent as nat,
                    ),
                decreases items@.len() - j,
            {
                if j > 0 {
                    self.punct(out, ", ");
                }
                proof {
                    lemma_items_depth_bound(items@, j as int);
                }
                self.print_value(out, &items[j], indent);
                proof {
                    assert(items@.subrange(0, j as int + 1).drop_last() =~= items@.subrange(
                        0,
                        j as int,
                    ));
                    assert(items@.subrange(0, j as int + 1).last() == items@[j as int]);
                    assert(out@ =~= o0 + punct_tok(*self, "["@) + render_items_compact(
                        *self,
                        items@.subrange(0, j as int + 1),
                        indent as nat,
                    ));
                }
                j = j + 1;
            }
            proof {
                assert(items@.subrange(0, items@.len() as int) =~= items@);
            }
            self.punct(out, "]");
            proof {
                assert(out@ =~= o0 + target);
            }
        } else {
            let mut j: usize = 0;
            while j < items.len()
                invariant
                    j <= items@.len(),
                    items@.len() > 0,
                    !all_scalars(items@),
                    indent + 1 + items_depth(items@) <= usize::MAX,
                    out@ == o0 + punct_tok(*self, "["@) + render_items_expanded(
                        *self,
                        items@.subrange(0, j as int),
                        indent as nat,
                    ) + (if 0 < j < items@.len() {
                        punct_tok(*self, ","@)
                    } else {
                        Seq::<char>::empty()
                    }),
                decreases items@.len() - j,
            {
                out.append("\n");
                self.write_indent(out, indent + 1);
                proof {
                    lemma_items_depth_bound(items@, j as int);
                }
                self.print_value(out, &items[j], indent + 1);
                if j < items.len() - 1 {
                    self.punct(out, ",");
                }
                proof {
                    assert(items@.subrange(0, j as int + 1).drop_last() =~= items@.subrange(
                        0,
                        j as int,
                    ));
                    assert(items@.subrange(0, j as int + 1).last() == items@[j as int]);
                    assert(out@ =~= o0 + punct_tok(*self, "["@) + render_items_expanded(
                        *self,
                        items@.subrange(0, j as int + 1),
                        indent as nat,
                    ) + (if 0 < j + 1 < items@.len() {
                        punct_tok(*self, ","@)
                    } else {
                        Seq::<char>::empty()
                    }));
                }
                j = j + 1;
            }
            proof {
                assert(items@.subrange(0, items@.len() as int) =~= items@);
            }
            out.append("\n");
            self.write_indent(out, indent);
            self.punct(out, "]");
            proof {
                assert(out@ =~= o0 + target);
            }
        }
    }

    /// Appends the rendering of an object, braces included.
    fn print_object(
        &self,
        out: &mut String,
        entries: &Vec<(String, StructuredValue)>,
        indent: usize,
    )
        requires
            indent + 1 + entries_depth(entries@) <= usize::MAX,
        ensures
            final(out)@ == old(out)@ + render_value(
                *self,
                StructuredValue::Object(*entries),
                indent as nat,
            ),
        decreases entries@,
    {
        let ghost o0 = out@;
        let ghost target = render_value(*self, StructuredValue::Object(*entries), indent as nat);
        self.punct(out, "{");
        if entries.len() == 0 {
            self.punct(out, "}");
            proof {
                assert(out@ =~= o0 + target);
            }
            return ;
        }
        let compact = self.should_format_compact_object(entries);
        if compact {
            let mut j: usize = 0;
            while j < entries.len()
                invariant
                    j <= entries@.len(),
                    entries@.len() > 0,
                    object_compact(*self, entries@),
                    indent + 1 + entries_depth(entries@) <= usize::MAX,
                    out@ == o0 + punct_tok(*self, "{"@) + render_entries_compact(
                        *self,
                        entries@.subrange(0, j as int),
                        indent as nat,
                    ),
                decreases entries@.len() - j,
            {
                if j > 0 {
                    self.punct(out, ", ");
                }
                self.write_key(out, entries[j].0.as_str());
                proof {
                    lemma_entries_depth_bound(entries@, j as int);
                }
                self.print_value(out, &entries[j].1, indent);
                proof {
                    assert(entries@.subrange(0, j as int + 1).drop_last() =~= entries@.subrange(
                        0,
                        j as int,
                    ));
                    assert(entries@.subrange(0, j as int + 1).last() == entries@[j as int]);
                    assert(out@ =~= o0 + punct_tok(*self, "{"@) + render_entries_compact(
                        *self,
                        entries@.subrange(0, j as int + 1),
                        indent as nat,
                    ));
                }
                j = j + 1;
            }
            proof {
                assert(entries@.subrange(0, entries@.len() as int) =~= entries@);
            }
            self.punct(out, "}");
            proof {
                assert(out@ =~= o0 + target);
            }
        } else {
            let mut j: usize = 0;
            while j < entries.len()
                invariant
                    j <= entries@.len(),
                    entries@.len() > 0,
                    !object_compact(*self, entries@),
                    indent + 1 + entries_depth(entries@) <= usize::MAX,
                    out@ == o0 + punct_tok(*self, "{"@) + render_entries_expanded(
                        *self,
                        entries@.subrange(0, j as int),
                        indent as nat,
                    ) + (if 0 < j < entries@.len() {
                        punct_tok(*self, ","@)
                    } else {
                        Seq::<char>::empty()
                    }),
                decreases entries@.len() - j,
            {
                out.append("\n");
                self.write_indent(out, indent + 1);
                self.write_key(out, entries[j].0.as_str());
                proof {
                    lemma_entries_depth_bound(entries@, j as int);
                }
                self.print_value(out, &entries[j].1, indent + 1);
                if j < entries.len() - 1 {
                    self.punct(out, ",");
                }
                proof {
                    assert(entries@.subrange(0, j as int + 1).drop_last() =~= entries@.subrange(
                        0,
                        j as int,
                    ));
                    assert(entries@.subrange(0, j as int + 1).last() == entries@[j as int]);
                    assert(out@ =~= o0 + punct_tok(*self, "{"@) + render_entries_expanded(
                        *self,
                        entries@.subrange(0, j as int + 1),
                        indent as nat,
                    ) + (if 0 < j + 1 < entries@.len() {
                        punct_tok(*self, ","@)
                    } else {
                        Seq::<char>::empty()
                    }));
                }
                j = j + 1;
            }
            proof {
                assert(entries@.subrange(0, entries@.len() as int) =~= entries@);
            }
            out.append("\n");
            self.write_indent(out, indent);
            self.punct(out, "}");
            proof {
                assert(out@ =~= o0 + target);
            }
        }
    }

    /// Appends the rendering of a value at the outermost nesting level.
    pub fn print(&self, out: &mut String, value: &StructuredValue)
        requires
            depth(*value) <= usize::MAX,
        ensures
            final(out)@ == old(out)@ + render_value(*self, *value, 0),
    {
        self.print_value(out, value, 0);
    }

    /// Appends an object's contents without the surrounding braces, at a
    /// custom base indentation.
    pub fn print_object_contents(
        &self,
        out: &mut String,
        obj: &Vec<(String, StructuredValue)>,
        base_indent: usize,
    )
        requires
            base_indent + 1 + entries_depth(obj@) <= usize::MAX,
        ensures
            final(out)@ == old(out)@ + render_object_contents(*self, obj@, base_indent as nat),
    {
        let ghost o0 = out@;
        if obj.len() == 0 {
            return ;
        }
        let compact = self.should_format_compact_object(obj);
        if compact {
            self.write_indent(out, base_indent);
            let mut j: usize = 0;
            while j < obj.len()
                invariant
                    j <= obj@.len(),
                    obj@.len() > 0,
                    object_compact(*self, obj@),
                    base_indent + 1 + entries_depth(obj@) <= usize::MAX,
                    out@ == o0 + indent_chars(*self, base_indent as nat) + render_entries_compact(
                        *self,
                        obj@.subrange(0, j as int),
                        base_indent as nat,
                    ),
                decreases obj@.len() - j,
            {
                if j > 0 {
                    self.punct(out, ", ");
                }
                self.write_key(out, obj[j].0.as_str());
                proof {
                    lemma_entries_depth_bound(obj@, j as int);
                }
                self.print_value(out, &obj[j].1, base_indent);
                proof {
                    assert(obj@.subrange(0, j as int + 1).drop_last() =~= obj@.subrange(
                        0,
                        j as int,
                    ));
                    assert(obj@.subrange(0, j as int + 1).last() == obj@[j as int]);
                    assert(out@ =~= o0 + indent_chars(*self, base_indent as nat)
                        + render_entries_compact(
                        *self,
                        obj@.subrange(0, j as int + 1),
                        base_indent as nat,
                    ));
                }
                j = j + 1;
            }
            proof {
                assert(obj@.subrange(0, obj@.len() as int) =~= obj@);
            }
        } else {
            let mut j: usize = 0;
            while j < obj.len()
                invariant
                    j <= obj@.len(),
                    obj@.len() > 0,
                    !object_compact(*self, obj@),
                    base_indent + 1 + entries_depth(obj@) <= usize::MAX,
                    out@ == o0 + render_contents_upto(
                        *self,
                        obj@,
                        base_indent as nat,
                        j as int,
                    ),
                decreases obj@.len() - j,
            {
                self.write_indent(out, base_indent);
                self.write_key(out, obj[j].0.as_str());
                proof {
                    lemma_entries_depth_bound(obj@, j as int);
                }
                self.print_value(out, &obj[j].1, base_indent + 1);
                if j < obj.len() - 1 {
                    self.punct(out, ",");
                }
                out.append("\n");
                proof {
                    assert(out@ =~= o0 + render_contents_upto(
                        *self,
                        obj@,
                        base_indent as nat,
                        j as int + 1,
                    ));
                }
                j = j + 1;
            }
        }
    }
}

/// A character sequence that contains no newline.
pub open spec fn newline_free(s: Seq<char>) -> bool {
    forall|i: int| 0 <= i < s.len() ==> s[i] != '\n'
}

/// A scalar whose source text contains no newline.
pub open spec fn scalar_newline_free(v: StructuredValue) -> bool {
    match v {
        StructuredValue::Number(s) => newline_free(s@),
        StructuredValue::Text(s) => newline_free(s@),
        _ => true,
    }
}

/// A printer whose color tokens contain no newline, as every printer made
/// by `ValuePrinter::new` does.
pub open spec fn printer_newline_free(p: ValuePrinter) -> bool {
    &&& newline_free(p.string_color@)
    &&& newline_free(p.number_color@)
    &&& newline_free(p.boolean_color@)
    &&& newline_free(p.null_color@)
    &&& newline_free(p.punctuation_color@)
    &&& newline_free(p.reset_color@)
}

proof fn lemma_newline_free_concat(a: Seq<char>, b: Seq<char>)
    requires
        newline_free(a),
        newline_free(b),
    ensures
        newline_free(a + b),
{
    assert forall|i: int| 0 <= i < (a + b).len() implies (a + b)[i] != '\n' by {
        if i < a.len() {
            assert((a + b)[i] == a[i]);
        } else {
            assert((a + b)[i] == b[i - a.len()]);
        }
    }
}

proof fn lemma_scalar_render_newline_free(p: ValuePrinter, v: StructuredValue)
    requires
        is_scalar(v),
        scalar_newline_free(v),
        printer_newline_free(p),
    ensures
        newline_free(render_scalar(p, v)),
{
    reveal_strlit("null");
    reveal_strlit("true");
    reveal_strlit("false");
    reveal_strlit("\"");
    assert(newline_free("null"@));
    assert(newline_free("true"@));
    assert(newline_free("false"@));
    assert(newline_free("\""@));
    match v {
        StructuredValue::Null => {
            lemma_newline_free_concat(p.null_color@, "null"@);
            lemma_newline_free_concat(p.null_color@ + "null"@, p.reset_color@);
        },
        StructuredValue::Boolean(b) => {
            if b {
                lemma_newline_free_concat(p.boolean_color@, "true"@);
                lemma_newline_free_concat(p.boolean_color@ + "true"@, p.reset_color@);
            } else {
                lemma_newline_free_concat(p.boolean_color@, "false"@);
                lemma_newline_free_concat(p.boolean_color@ + "false"@, p.reset_color@);
            }
        },
        StructuredValue::Number(s) => {
            lemma_newline_free_concat(p.number_color@, s@);
            lemma_newline_free_concat(p.number_color@ + s@, p.reset_color@);
        },
        StructuredValue::Text(s) => {
            lemma_newline_free_concat(p.string_color@, "\""@);
            lemma_newline_free_concat(p.string_color@ + "\""@, s@);
            lemma_newline_free_concat(p.string_color@ + "\""@ + s@, "\""@);
            lemma_newline_free_concat(p.string_color@ + "\""@ + s@ + "\""@, p.reset_color@);
        },
        _ => {},
    }
}

proof fn lemma_compact_items_newline_free(p: ValuePrinter, items: Seq<StructuredValue>, indent: nat)
    requires
        all_scalars(items),
        forall|i: int| 0 <= i < items.len() ==> scalar_newline_free(items[i]),
        printer_newline_free(p),
    ensures
        newline_free(render_items_compact(p, items, indent)),
    decreases items,
{
    if items.len() == 0 {
    } else {
        lemma_compact_items_newline_free(p, items.drop_last(), indent);
        assert(is_scalar(items.last()) && scalar_newline_free(items.last()));
        assert(render_value(p, items.last(), indent) == render_scalar(p, items.last()));
        lemma_scalar_render_newline_free(p, items.last());
        reveal_strlit(", ");
        assert(newline_free(", "@));
        lemma_newline_free_concat(p.punctuation_color@, ", "@);
        lemma_newline_free_concat(p.punctuation_color@ + ", "@, p.reset_color@);
        let sep: Seq<char> = if items.len() == 1 {
            Seq::empty()
        } else {
            punct_tok(p, ", "@)
        };
        lemma_newline_free_concat(render_items_compact(p, items.drop_last(), indent), sep);
        lemma_newline_free_concat(
            render_items_compact(p, items.drop_last(), indent) + sep,
            render_value(p, items.last(), indent),
        );
    }
}

/// Compact-array rule, compact direction: an array of only scalars, of any
/// length, renders as one bracketed list joined by `", "` separators.
pub proof fn lemma_compact_array_rendering(
    p: ValuePrinter,
    items: Vec<StructuredValue>,
    indent: nat,
)
    requires
        all_scalars(items@),
    ensures
        render_value(p, StructuredValue::Array(items), indent) == punct_tok(p, "["@) + (if items@.len() == 0 {
            Seq::<char>::empty()
        } else {
            render_items_compact(p, items@, indent)
        }) + punct_tok(p, "]"@),
{
}

/// Compact-array rule, one-line guarantee: when neither the scalar texts
/// nor the color tokens contain a newline, the whole compact rendering is
/// newline-free.
pub proof fn lemma_compact_array_one_line(p: ValuePrinter, items: Vec<StructuredValue>, indent: nat)
    requires
        all_scalars(items@),
        forall|i: int| 0 <= i < items@.len() ==> scalar_newline_free(items@[i]),
        printer_newline_free(p),
    ensures
        newline_free(render_value(p, StructuredValue::Array(items), indent)),
{
    reveal_strlit("[");
    reveal_strlit("]");
    assert(newline_free("["@));
    assert(newline_free("]"@));
    lemma_newline_free_concat(p.punctuation_color@, "["@);
    lemma_newline_free_concat(p.punctuation_color@ + "["@, p.reset_color@);
    lemma_newline_free_concat(p.punctuation_color@, "]"@);
    lemma_newline_free_concat(p.punctuation_color@ + "]"@, p.reset_color@);
    let body: Seq<char> = if items@.len() == 0 {
        Seq::empty()
    } else {
        render_items_compact(p, items@, indent)
    };
    lemma_compact_items_newline_free(p, items@, indent);
    lemma_newline_free_concat(punct_tok(p, "["@), body);
    lemma_newline_free_concat(punct_tok(p, "["@) + body, punct_tok(p, "]"@));
}

/// Compact-array rule, expansion direction: an array containing even one
/// nested container renders expanded, one element per line, regardless of
/// its size.
pub proof fn lemma_nested_array_expands(p: ValuePrinter, items: Vec<StructuredValue>, indent: nat)
    requires
        items@.len() > 0,
        !all_scalars(items@),
    ensures
        render_value(p, StructuredValue::Array(items), indent) == punct_tok(p, "["@)
            + render_items_expanded(p, items@, indent) + "\n"@ + indent_chars(p, indent)
            + punct_tok(p, "]"@),
{
    assert(render_value(p, StructuredValue::Array(items), indent) == punct_tok(p, "["@) + (
    render_items_expanded(p, items@, indent) + "\n"@ + indent_chars(p, indent)) + punct_tok(
        p,
        "]"@,
    ));
    assert(punct_tok(p, "["@) + (render_items_expanded(p, items@, indent) + "\n"@ + indent_chars(
        p,
        indent,
    )) + punct_tok(p, "]"@) =~= punct_tok(p, "["@) + render_items_expanded(p, items@, indent)
        + "\n"@ + indent_chars(p, indent) + punct_tok(p, "]"@));
}

/// Idempotence: rendering a value twice with identical configuration
/// produces byte-identical output — the rendering is a pure function of
/// the printer and the value.
pub proof fn lemma_render_deterministic(
    p1: ValuePrinter,
    p2: ValuePrinter,
    v: StructuredValue,
    indent: nat,
)
    requires
        p1 == p2,
    ensures
        render_value(p1, v, indent) == render_value(p2, v, indent),
{
}

} // verus!
