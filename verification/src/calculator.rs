//! Which imposed PDF pages to print for each signature.
//!
//! The input PDF is already imposed (two content pages per sheet side), so a
//! signature of four sheets is eight PDF pages. Each signature is printed in two
//! passes: its odd PDF pages in ascending order, then, after flipping the stack,
//! its even PDF pages in descending order.
use vstd::prelude::*;
use vstd::string::*;
use crate::pipeline::pad::blank_pages_for;
use crate::process::{concat, push_string, texts};
use crate::text::{decimal, decimal_text, int_error_text, parse_usize, parse_usize_text};

verus! {

/// Imposed PDF pages that make up one signature (4 sheets × 2 sides).
pub const PDF_PAGES_PER_SIGNATURE: usize = 8;

/// A single signature with its page numbers for duplex printing.
#[derive(Debug, Clone, PartialEq, Eq)]
pub struct Signature {
    /// Signature number (1-indexed)
    pub number: usize,
    /// Odd PDF pages to print in the first pass
    pub odd_pages: Vec<usize>,
    /// Even PDF pages to print in the second pass (in reverse order)
    pub even_pages: Vec<usize>,
}

/// Number of signatures needed for `total` imposed PDF pages.
pub open spec fn signature_count(total: int) -> int {
    (total + 7) / 8
}

/// `total` rounded up to the next multiple of eight.
pub open spec fn padded_page_count(total: int) -> int {
    signature_count(total) * 8
}

/// First pass of the signature at 0-based `index`: its odd pages, ascending.
pub open spec fn first_pass_pages(index: int) -> Seq<int> {
    Seq::new(4, |k: int| 8 * index + 2 * k + 1)
}

/// Second pass of the signature at 0-based `index`: its even pages, descending.
pub open spec fn second_pass_pages(index: int) -> Seq<int> {
    Seq::new(4, |k: int| 8 * index + 8 - 2 * k)
}

/// A list of page numbers read as mathematical integers.
pub open spec fn page_numbers(pages: Seq<usize>) -> Seq<int> {
    pages.map_values(|p: usize| p as int)
}

/// `sig` is the signature at 0-based position `index`.
pub open spec fn is_signature_at(sig: Signature, index: int) -> bool {
    &&& sig.number == index + 1
    &&& page_numbers(sig.odd_pages@) == first_pass_pages(index)
    &&& page_numbers(sig.even_pages@) == second_pass_pages(index)
}

/// The page printed at `slot` (0..8) of the signature at `index`: the four
/// first-pass pages, then the four second-pass pages.
pub open spec fn page_at(index: int, slot: int) -> int {
    if slot < 4 {
        first_pass_pages(index)[slot]
    } else {
        second_pass_pages(index)[slot - 4]
    }
}

/// The suffix that follows a signature number when it is shown
/// (only 1, 2 and 3 get a suffix other than "th").
pub open spec fn ordinal_suffix_text(number: int) -> Seq<char> {
    if number == 1 {
        "st"@
    } else if number == 2 {
        "nd"@
    } else if number == 3 {
        "rd"@
    } else {
        "th"@
    }
}

impl Signature {
    /// The suffix to show after the signature number ("1st", "2nd", ...).
    pub fn ordinal_suffix(&self) -> (suffix: &'static str)
        ensures
            suffix@ == ordinal_suffix_text(self.number as int),
    {
        match self.number {
            1 => "st",
            2 => "nd",
            3 => "rd",
            _ => "th",
        }
    }
}

/// Calculate which PDF pages to print for each signature.
///
/// Returns the signatures and the page count padded to a multiple of eight.
pub fn calculate_signatures(total_pdf_pages: usize) -> (result: (Vec<Signature>, usize))
    requires
        total_pdf_pages <= usize::MAX - 7,
    ensures
        result.1 == padded_page_count(total_pdf_pages as int),
        result.0.len() == signature_count(total_pdf_pages as int),
        forall|i: int| 0 <= i < result.0.len() ==> is_signature_at(#[trigger] result.0[i], i),
{
    // Pad to the nearest multiple of 8
    let num_signatures = (total_pdf_pages + 7) / PDF_PAGES_PER_SIGNATURE;
    let padded_pages = num_signatures * PDF_PAGES_PER_SIGNATURE;
    let mut signatures: Vec<Signature> = Vec::with_capacity(num_signatures);

    for sig_num in 0..num_signatures
        invariant
            num_signatures == signature_count(total_pdf_pages as int),
            num_signatures * 8 <= usize::MAX,
            signatures.len() == sig_num,
            forall|i: int| 0 <= i < sig_num ==> is_signature_at(#[trigger] signatures@[i], i),
    {
        let start_pdf_page = sig_num * PDF_PAGES_PER_SIGNATURE + 1;
        let end_pdf_page = start_pdf_page + PDF_PAGES_PER_SIGNATURE - 1;

        // First pass: odd PDF pages in order
        let mut odd_pages: Vec<usize> = Vec::with_capacity(4);
        // Second pass: even PDF pages in reverse
        let mut even_pages: Vec<usize> = Vec::with_capacity(4);
        for k in 0..4usize
            invariant
                start_pdf_page == 8 * sig_num + 1,
                end_pdf_page == 8 * sig_num + 8,
                end_pdf_page <= usize::MAX,
                odd_pages.len() == k,
                even_pages.len() == k,
                forall|j: int| 0 <= j < k ==> #[trigger] odd_pages@[j] == 8 * sig_num + 2 * j + 1,
                forall|j: int| 0 <= j < k ==> #[trigger] even_pages@[j] == 8 * sig_num + 8 - 2 * j,
        {
            odd_pages.push(start_pdf_page + 2 * k);
            even_pages.push(end_pdf_page - 2 * k);
        }
        assert(page_numbers(odd_pages@) =~= first_pass_pages(sig_num as int));
        assert(page_numbers(even_pages@) =~= second_pass_pages(sig_num as int));

        signatures.push(Signature { number: sig_num + 1, odd_pages, even_pages });
    }

    (signatures, padded_pages)
}

/// Padding never removes pages, lands on a whole number of signatures, and adds
/// fewer blank pages than one signature holds.
pub proof fn lemma_padding_is_minimal(total: int)
    requires
        total >= 0,
    ensures
        padded_page_count(total) >= total,
        padded_page_count(total) % 8 == 0,
        padded_page_count(total) - total < 8,
        padded_page_count(total) == 8 * signature_count(total),
{
}

/// Padding a document for eight-page signatures gives the same page count
/// whether it is counted here or by the padding phase of booklet processing.
pub proof fn lemma_padding_agrees_with_pad_phase(total: int)
    requires
        total >= 0,
    ensures
        padded_page_count(total) == total + blank_pages_for(total, 8),
{
    let q = total / 8;
    let r = total % 8;
    assert(total == 8 * q + r && 0 <= r < 8);
    if r == 0 {
        assert((total + 7) / 8 == q);
    } else {
        assert((total + 7) / 8 == q + 1);
        assert((8 - r) % 8 == 8 - r);
    }
}

/// Within each signature the first pass holds odd pages in ascending order and
/// the second pass holds even pages in descending order.
pub proof fn lemma_pass_order(index: int)
    ensures
        forall|k: int| 0 <= k < 4 ==> #[trigger] first_pass_pages(index)[k] % 2 == 1,
        forall|k: int| 0 <= k < 4 ==> #[trigger] second_pass_pages(index)[k] % 2 == 0,
        forall|j: int, k: int|
            0 <= j < k < 4 ==> first_pass_pages(index)[j] < first_pass_pages(index)[k],
        forall|j: int, k: int|
            0 <= j < k < 4 ==> second_pass_pages(index)[j] > second_pass_pages(index)[k],
{
    assert forall|k: int| 0 <= k < 4 implies #[trigger] first_pass_pages(index)[k] % 2 == 1 by {
        assert(8 * index + 2 * k + 1 == 2 * (4 * index + k) + 1);
    }
    assert forall|k: int| 0 <= k < 4 implies #[trigger] second_pass_pages(index)[k] % 2 == 0 by {
        assert(8 * index + 8 - 2 * k == 2 * (4 * index + 4 - k));
    }
}

/// Every page printed by the signatures of a `total`-page document lies in
/// `1..=padded`.
pub proof fn lemma_pages_in_range(total: int, index: int, slot: int)
    requires
        total >= 0,
        0 <= index < signature_count(total),
        0 <= slot < 8,
    ensures
        1 <= page_at(index, slot) <= padded_page_count(total),
{
}

/// No page is printed twice: distinct positions hold distinct pages.
pub proof fn lemma_pages_distinct(index1: int, slot1: int, index2: int, slot2: int)
    requires
        0 <= index1,
        0 <= index2,
        0 <= slot1 < 8,
        0 <= slot2 < 8,
        index1 != index2 || slot1 != slot2,
    ensures
        page_at(index1, slot1) != page_at(index2, slot2),
{
    if index1 == index2 {
    } else if index1 < index2 {
        assert(page_at(index1, slot1) <= 8 * index1 + 8);
        assert(page_at(index2, slot2) >= 8 * index2 + 1);
    } else {
        assert(page_at(index2, slot2) <= 8 * index2 + 8);
        assert(page_at(index1, slot1) >= 8 * index1 + 1);
    }
}

/// Every page of the padded document is printed: page `p` sits in signature
/// `(p - 1) / 8`.
pub proof fn lemma_every_page_printed(total: int, p: int)
    requires
        total >= 0,
        1 <= p <= padded_page_count(total),
    ensures
        exists|index: int, slot: int|
            0 <= index < signature_count(total) && 0 <= slot < 8 && #[trigger] page_at(index, slot)
                == p,
{
    let index = (p - 1) / 8;
    let r = (p - 1) % 8;
    assert(p == 8 * index + r + 1);
    let slot = if r % 2 == 0 { r / 2 } else { 4 + (7 - r) / 2 };
    assert(page_at(index, slot) == p);
}

/// Page numbers separated by ", ".
pub open spec fn page_list_text(pages: Seq<int>) -> Seq<char>
    decreases pages.len(),
{
    if pages.len() == 0 {
        Seq::empty()
    } else if pages.len() == 1 {
        decimal_text(pages[0] as nat)
    } else {
        page_list_text(pages.drop_last()) + ", "@ + decimal_text(pages.last() as nat)
    }
}

/// The four report lines of the signature at 0-based `index`.
pub open spec fn signature_block(index: int) -> Seq<Seq<char>> {
    seq![
        decimal_text((index + 1) as nat) + ordinal_suffix_text(index + 1) + " signature:"@,
        "  - "@ + page_list_text(first_pass_pages(index)),
        "  - "@ + page_list_text(second_pass_pages(index)),
        Seq::<char>::empty(),
    ]
}

/// The report lines of the first `count` signatures.
pub open spec fn signature_blocks(count: nat) -> Seq<Seq<char>>
    decreases count,
{
    if count == 0 {
        Seq::empty()
    } else {
        signature_blocks((count - 1) as nat) + signature_block(count - 1)
    }
}

/// The printed report for a `total`-page imposed PDF: the page count, the
/// padding when there is any, the number of signatures, then each signature's
/// two passes.
pub open spec fn signature_report(total: nat) -> Seq<Seq<char>> {
    let padded = padded_page_count(total as int);
    let count = signature_count(total as int);
    let first = seq!["Total PDF pages: "@ + decimal_text(total)];
    let with_padding = if padded != total {
        first.push(
            "Padded to: "@ + decimal_text(padded as nat) + " pages ("@ + decimal_text(
                (padded - total) as nat,
            ) + " blank PDF pages needed)"@,
        )
    } else {
        first
    };
    with_padding + seq!["Number of signatures: "@ + decimal_text(count as nat), Seq::<char>::empty()]
        + signature_blocks(count as nat)
}

/// The pages of `pages`, separated by ", ".
pub fn format_page_list(pages: &Vec<usize>) -> (s: String)
    ensures
        s@ == page_list_text(page_numbers(pages@)),
{
    let ghost all = page_numbers(pages@);
    let mut s = String::new();
    if pages.len() == 0 {
        assert(all =~= Seq::<int>::empty());
        return s;
    }
    s = decimal(pages[0]);
    assert(all.take(1) =~= seq![all[0]]);
    for i in 1..pages.len()
        invariant
            all == page_numbers(pages@),
            s@ == page_list_text(all.take(i as int)),
    {
        s.append(", ");
        s.append(decimal(pages[i]).as_str());
        assert(all.take(i + 1).drop_last() =~= all.take(i as int));
    }
    assert(all.take(pages.len() as int) =~= all);
    s
}

fn push_signature_block(lines: &mut Vec<String>, sig: &Signature, Ghost(index): Ghost<int>)
    requires
        is_signature_at(*sig, index),
    ensures
        texts(final(lines)@) == texts(old(lines)@) + signature_block(index),
{
    let mut header = decimal(sig.number);
    header.append(sig.ordinal_suffix());
    header.append(" signature:");
    push_string(lines, header);
    push_string(lines, concat("  - ", format_page_list(&sig.odd_pages).as_str()));
    push_string(lines, concat("  - ", format_page_list(&sig.even_pages).as_str()));
    push_string(lines, String::new());
    assert(texts(lines@) =~= texts(old(lines)@) + signature_block(index));
}

/// The lines that describe which PDF pages to print for each signature.
pub fn signature_report_lines(total_pdf_pages: usize) -> (lines: Vec<String>)
    requires
        total_pdf_pages <= usize::MAX - 7,
    ensures
        texts(lines@) == signature_report(total_pdf_pages as nat),
{
    let (signatures, padded_pages) = calculate_signatures(total_pdf_pages);
    let mut lines: Vec<String> = Vec::new();
    push_string(&mut lines, concat("Total PDF pages: ", decimal(total_pdf_pages).as_str()));
    if padded_pages != total_pdf_pages {
        let mut line = concat("Padded to: ", decimal(padded_pages).as_str());
        line.append(" pages (");
        line.append(decimal(padded_pages - total_pdf_pages).as_str());
        line.append(" blank PDF pages needed)");
        push_string(&mut lines, line);
    }
    push_string(&mut lines, concat("Number of signatures: ", decimal(signatures.len()).as_str()));
    push_string(&mut lines, String::new());
    let ghost head = texts(lines@);
    for i in 0..signatures.len()
        invariant
            forall|j: int| 0 <= j < signatures.len() ==> is_signature_at(#[trigger] signatures@[j], j),
            texts(lines@) == head + signature_blocks(i as nat),
    {
        push_signature_block(&mut lines, &signatures[i], Ghost(i as int));
        assert(head + signature_blocks((i + 1) as nat) =~= head + signature_blocks(i as nat)
            + signature_block(i as int));
    }
    assert(texts(lines@) =~= signature_report(total_pdf_pages as nat));
    lines
}

/// What the page-count argument `arg` gives: a positive count, or the reason
/// it is refused.
pub open spec fn total_pages_outcome(arg: Seq<char>) -> Result<int, Seq<char>> {
    match parse_usize_text(arg) {
        Ok(n) => if n > 0 {
            Ok(n)
        } else {
            Err("Page count must be positive"@)
        },
        Err(kind) => Err(int_error_text(kind)),
    }
}

/// Reads the total number of imposed PDF pages from a command-line argument.
pub fn parse_total_pages(arg: &str) -> (r: Result<usize, String>)
    ensures
        match r {
            Ok(n) => total_pages_outcome(arg@) == Ok::<int, Seq<char>>(n as int),
            Err(msg) => total_pages_outcome(arg@) == Err::<int, Seq<char>>(msg@),
        },
{
    match parse_usize(arg) {
        Ok(n) => {
            if n > 0 {
                Ok(n)
            } else {
                Err(String::from_str("Page count must be positive"))
            }
        },
        Err(kind) => Err(String::from_str(kind.description())),
    }
}

/// Only the first three signatures get a suffix other than "th": 1st, 2nd, 3rd.
pub proof fn lemma_ordinal_suffixes(number: int)
    ensures
        number == 1 ==> ordinal_suffix_text(number) == "st"@,
        number == 2 ==> ordinal_suffix_text(number) == "nd"@,
        number == 3 ==> ordinal_suffix_text(number) == "rd"@,
        !(1 <= number <= 3) ==> ordinal_suffix_text(number) == "th"@,
{
}

} // verus!
