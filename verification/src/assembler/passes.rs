//! Why two passes are enough: both passes walk the tokens in the same way, so the second
//! pass meets every label definition at the address the first pass gave it.
use vstd::prelude::*;

use crate::assembler::spec::{AsmView, Step};
use crate::assembler::token::TokenView;
use crate::instructions::InstructionKind;
use crate::regs::Reg;

verus! {

/// Two assembler states at the same point of the same tokens: the same cursor, location,
/// line and amount of code. The bytes of the code, the labels and the pass may differ.
pub open spec fn same_shape(a: AsmView, b: AsmView) -> bool {
    &&& a.tokens == b.tokens
    &&& a.cursor == b.cursor
    &&& a.loc == b.loc
    &&& a.line == b.line
    &&& a.code.len() == b.code.len()
}

/// A step from `a` to `a2` that leaves the tokens, the labels and the pass unchanged.
pub open spec fn keeps(a: AsmView, a2: AsmView) -> bool {
    &&& a2.tokens == a.tokens
    &&& a2.labels == a.labels
    &&& a2.pass2 == a.pass2
}

/// The same step taken from two states of the same shape: neither side changes its
/// tokens, labels or pass, and if both succeed they end in states of the same shape.
pub open spec fn agree<T, U>(a: AsmView, b: AsmView, ra: Step<T>, rb: Step<U>) -> bool {
    &&& keeps(a, ra.0)
    &&& keeps(b, rb.0)
    &&& (ra.1 is Ok && rb.1 is Ok ==> same_shape(ra.0, rb.0))
}

/// Adding the same bytes to states of the same shape fails or succeeds alike, and keeps
/// the shapes equal.
pub broadcast proof fn lemma_emit_bytes_agree(a: AsmView, b: AsmView, bytes: Seq<u8>)
    requires
        same_shape(a, b),
    ensures
        #![trigger a.emit_bytes(bytes), b.emit_bytes(bytes)]
        same_shape(a.emit_bytes(bytes).0, b.emit_bytes(bytes).0),
        a.emit_bytes(bytes).1 == b.emit_bytes(bytes).1,
        keeps(a, a.emit_bytes(bytes).0),
        keeps(b, b.emit_bytes(bytes).0),
    decreases bytes.len(),
{
    if bytes.len() > 0 {
        lemma_emit_bytes_agree(
            a.emit_byte(bytes[0]).0,
            b.emit_byte(bytes[0]).0,
            bytes.drop_first(),
        );
    }
}

/// Adding the same string to states of the same shape fails or succeeds alike, and
/// keeps the shapes equal.
pub broadcast proof fn lemma_emit_string_agree(a: AsmView, b: AsmView, text: Seq<char>)
    requires
        same_shape(a, b),
    ensures
        #![trigger a.emit_string(text), b.emit_string(text)]
        same_shape(a.emit_string(text).0, b.emit_string(text).0),
        a.emit_string(text).1 == b.emit_string(text).1,
        keeps(a, a.emit_string(text).0),
        keeps(b, b.emit_string(text).0),
    decreases text.len(),
{
    if text.len() > 0 && (text[0] as u32) < 128 {
        lemma_emit_string_agree(
            a.emit_byte(text[0] as u8).0,
            b.emit_byte(text[0] as u8).0,
            text.drop_first(),
        );
    }
}

/// `data` statements agree.
proof fn lemma_gen_data_agree(a: AsmView, b: AsmView)
    requires
        same_shape(a, b),
    ensures
        same_shape(a.gen_data().0, b.gen_data().0),
        a.gen_data().1 == b.gen_data().1,
        keeps(a, a.gen_data().0),
        keeps(b, b.gen_data().0),
    decreases a.tokens.len() - a.cursor,
{
    broadcast use lemma_emit_string_agree;

    if 0 <= a.cursor < a.tokens.len() {
        let sa = a.advance();
        let sb = b.advance();
        match a.tokens[a.cursor] {
            TokenView::ByteLiteral(x) => {
                let (sa2, ra2) = sa.emit_byte(x);
                let (sb2, rb2) = sb.emit_byte(x);
                if ra2 is Ok {
                    lemma_gen_data_agree(sa2, sb2);
                }
            },
            TokenView::Comma => {
                lemma_gen_data_agree(sa, sb);
            },
            TokenView::StringLiteral(text) => {
                let (sa2, ra2) = sa.emit_string(text);
                let (sb2, rb2) = sb.emit_string(text);
                if ra2 is Ok && sa2.cursor == sa.cursor && sa2.tokens == sa.tokens {
                    lemma_gen_data_agree(sa2, sb2);
                }
            },
            _ => {},
        }
    }
}

/// Statements on register and immediate operands agree.
proof fn lemma_gen_simple_agree(a: AsmView, b: AsmView)
    requires
        same_shape(a, b),
    ensures
        agree(a, b, a.gen_add(), b.gen_add()),
        agree(a, b, a.gen_and(), b.gen_and()),
        agree(a, b, a.gen_sub(), b.gen_sub()),
        agree(a, b, a.gen_cmp(), b.gen_cmp()),
        agree(a, b, a.gen_lsr(), b.gen_lsr()),
        agree(a, b, a.gen_trap(), b.gen_trap()),
        agree(a, b, a.org(), b.org()),
        agree(
            a,
            b,
            a.gen_stack(|r: Reg| InstructionKind::Pop(r)),
            b.gen_stack(|r: Reg| InstructionKind::Pop(r)),
        ),
        agree(
            a,
            b,
            a.gen_stack(|r: Reg| InstructionKind::Push(r)),
            b.gen_stack(|r: Reg| InstructionKind::Push(r)),
        ),
{
    broadcast use lemma_emit_bytes_agree;

}

/// Statements with label operands, which the two passes may resolve differently, agree.
proof fn lemma_gen_label_agree(a: AsmView, b: AsmView, kind: InstructionKind)
    requires
        same_shape(a, b),
    ensures
        agree(a, b, a.gen_branch(kind), b.gen_branch(kind)),
        agree(a, b, a.gen_far(kind), b.gen_far(kind)),
{
}

/// `inc` and `dec` agree.
proof fn lemma_gen_inc_dec_agree(a: AsmView, b: AsmView)
    requires
        same_shape(a, b),
    ensures
        agree(a, b, a.gen_inc(), b.gen_inc()),
        agree(a, b, a.gen_dec(), b.gen_dec()),
{
}

/// The forms of `ld` agree.
proof fn lemma_gen_ld_agree(a: AsmView, b: AsmView)
    requires
        same_shape(a, b),
    ensures
        agree(a, b, a.gen_ld(), b.gen_ld()),
{
    let (sa, ra) = a.next();
    let (sb, rb) = b.next();
    match ra {
        Ok(TokenView::ParenOpen) => {
            assert(agree(sa, sb, sa.gen_store_indirect(), sb.gen_store_indirect()));
        },
        Ok(TokenView::Register(target)) => {
            lemma_gen_ld_reg_agree(sa, sb, target);
        },
        Ok(TokenView::WordLiteral(addr)) => {
            assert(agree(sa, sb, sa.gen_store_direct(addr), sb.gen_store_direct(addr)));
        },
        _ => {},
    }
}

/// `ld R, ...` agrees.
proof fn lemma_gen_ld_reg_agree(a: AsmView, b: AsmView, target: Reg)
    requires
        same_shape(a, b),
    ensures
        agree(a, b, a.gen_ld_reg(target), b.gen_ld_reg(target)),
{
    let (sa, ra) = a.expect(TokenView::Comma);
    let (sb, rb) = b.expect(TokenView::Comma);
    if ra is Ok {
        let (ta, qa) = sa.next();
        let (tb, qb) = sb.next();
        match qa {
            Ok(TokenView::ByteLiteral(x)) => {
                assert(agree(ta, tb, ta.gen_ld_reg_imm8(target, x), tb.gen_ld_reg_imm8(target, x)));
            },
            Ok(TokenView::Identifier(label)) => {
                assert(agree(
                    ta,
                    tb,
                    ta.gen_ld_reg_imm_label(target, label),
                    tb.gen_ld_reg_imm_label(target, label),
                ));
            },
            Ok(TokenView::ParenOpen) => {
                assert(agree(ta, tb, ta.gen_ld_reg_indirect(target), tb.gen_ld_reg_indirect(target)));
            },
            Ok(TokenView::Register(source)) => {
                assert(agree(
                    ta,
                    tb,
                    ta.gen_ld_reg_reg(source, target),
                    tb.gen_ld_reg_reg(source, target),
                ));
            },
            Ok(TokenView::WordLiteral(w)) => {
                assert(agree(ta, tb, ta.gen_ld_reg_imm16(target, w), tb.gen_ld_reg_imm16(target, w)));
            },
            _ => {},
        }
    }
}

/// Every statement agrees.
#[verifier::spinoff_prover]
#[verifier::rlimit(50)]
proof fn lemma_assemble_kw_agree(a: AsmView, b: AsmView, kw: Seq<char>)
    requires
        same_shape(a, b),
    ensures
        agree(a, b, a.assemble_kw(kw), b.assemble_kw(kw)),
{
    if kw == "add"@ {
        lemma_gen_simple_agree(a, b);
    } else if kw == "and"@ {
        lemma_gen_simple_agree(a, b);
    } else if kw == "bcc"@ {
        lemma_gen_label_agree(a, b, InstructionKind::BranchCc);
    } else if kw == "bcs"@ {
        lemma_gen_label_agree(a, b, InstructionKind::BranchCs);
    } else if kw == "beq"@ {
        lemma_gen_label_agree(a, b, InstructionKind::BranchEq);
    } else if kw == "bne"@ {
        lemma_gen_label_agree(a, b, InstructionKind::BranchNe);
    } else if kw == "bra"@ {
        lemma_gen_label_agree(a, b, InstructionKind::BranchAlways);
    } else if kw == "call"@ {
        lemma_gen_label_agree(a, b, InstructionKind::Call);
    } else if kw == "clc"@ {
    } else if kw == "cmp"@ {
        lemma_gen_simple_agree(a, b);
    } else if kw == "data"@ {
        lemma_gen_data_agree(a, b);
    } else if kw == "dec"@ {
        lemma_gen_inc_dec_agree(a, b);
    } else if kw == "halt"@ {
    } else if kw == "inc"@ {
        lemma_gen_inc_dec_agree(a, b);
    } else if kw == "jmp"@ {
        lemma_gen_label_agree(a, b, InstructionKind::Jmp);
    } else if kw == "ld"@ {
        lemma_gen_ld_agree(a, b);
    } else if kw == "lsr"@ {
        lemma_gen_simple_agree(a, b);
    } else if kw == "nop"@ {
    } else if kw == "org"@ {
        lemma_gen_simple_agree(a, b);
    } else if kw == "pop"@ {
        lemma_gen_simple_agree(a, b);
    } else if kw == "push"@ {
        lemma_gen_simple_agree(a, b);
    } else if kw == "ret"@ {
    } else if kw == "rti"@ {
    } else if kw == "sec"@ {
    } else if kw == "sub"@ {
        lemma_gen_simple_agree(a, b);
    } else {
        lemma_gen_simple_agree(a, b);
    }
}

/// Two passes from states of the same shape that both succeed walk the tokens alike:
/// they end in states of the same shape, and define the same labels, in the same order,
/// at the same addresses (`d`).
pub proof fn lemma_pass_agree(a: AsmView, b: AsmView) -> (d: Seq<(Seq<char>, u16)>)
    requires
        same_shape(a, b),
        a.pass().1 is Ok,
        b.pass().1 is Ok,
    ensures
        a.pass().0.labels == a.labels + d,
        b.pass().0.labels == b.labels + d,
        a.pass().0.tokens == a.tokens,
        b.pass().0.tokens == b.tokens,
        same_shape(a.pass().0, b.pass().0),
    decreases a.tokens.len() - a.cursor,
{
    if 0 <= a.cursor < a.tokens.len() {
        let sa = a.advance();
        let sb = b.advance();
        match a.tokens[a.cursor] {
            TokenView::Comment(_) | TokenView::Newline => {
                let na = AsmView { line: sa.line + 1, ..sa };
                let nb = AsmView { line: sb.line + 1, ..sb };
                lemma_pass_agree(na, nb)
            },
            TokenView::Keyword(kw) => {
                lemma_assemble_kw_agree(sa, sb, kw);
                let (sa2, ra2) = sa.assemble_kw(kw);
                let (sb2, rb2) = sb.assemble_kw(kw);
                if sa.cursor <= sa2.cursor <= sa2.tokens.len() && sa2.tokens == sa.tokens {
                    lemma_pass_agree(sa2, sb2)
                } else {
                    assert(a.labels + Seq::<(Seq<char>, u16)>::empty() =~= a.labels);
                    assert(b.labels + Seq::<(Seq<char>, u16)>::empty() =~= b.labels);
                    Seq::empty()
                }
            },
            TokenView::LabelDef(label) => {
                let na = AsmView { labels: sa.labels.push((label, sa.loc)), ..sa };
                let nb = AsmView { labels: sb.labels.push((label, sb.loc)), ..sb };
                let rest = lemma_pass_agree(na, nb);
                let d = seq![(label, sa.loc)] + rest;
                assert(na.labels + rest =~= a.labels + d);
                assert(nb.labels + rest =~= b.labels + d);
                d
            },
            _ => Seq::empty(),
        }
    } else {
        assert(a.labels + Seq::<(Seq<char>, u16)>::empty() =~= a.labels);
        assert(b.labels + Seq::<(Seq<char>, u16)>::empty() =~= b.labels);
        Seq::empty()
    }
}

/// Two passes are enough: when assembly succeeds, the second pass meets every label
/// definition at the same address, and in the same order, as the first; so the labels it
/// resolves, forward references included, have their final addresses.
pub proof fn lemma_second_pass_repeats_labels(tokens: Seq<TokenView>)
    requires
        AsmView::initial(tokens).assemble().1 is Ok,
    ensures
        ({
            let first = AsmView::initial(tokens).pass().0;
            AsmView::initial(tokens).assemble().0.labels == first.labels + first.labels
        }),
{
    let a = AsmView::initial(tokens);
    let first = a.pass().0;
    assert(a.pass().1 is Ok);
    let d0 = lemma_pass_agree(a, a);
    let b = first.second_pass_start();
    assert(b.pass().1 is Ok);
    assert(same_shape(a, b));
    let d = lemma_pass_agree(a, b);
    assert(a.labels =~= Seq::<(Seq<char>, u16)>::empty());
    assert(first.labels =~= d);
}

} // verus!
