//! The two built-in corpora: classical poetry lines and common words.
//!
//! Every line offered to the rest of the crate is checked on construction:
//! it is non-empty, short, holds at least one Chinese character, and every
//! pinyin reading of its characters is made of lowercase ASCII letters.  A
//! corpus is never empty.

use vstd::prelude::*;

use crate::text::{has_wide_char, letters_seq, lower_letter, wide_char};
use crate::transform::{char_pinyin_plain, pinyin_plain, readings_letters};

verus! {

/// The longest line a corpus accepts, in characters.
pub const MAX_LINE_CHARS: usize = 7;

/// A usable corpus line: non-empty, at most `MAX_LINE_CHARS` characters,
/// with at least one Chinese (non-ASCII) character.
pub open spec fn wf_entry(s: Seq<char>) -> bool {
    0 < s.len() <= MAX_LINE_CHARS && has_wide_char(s)
}

/// A usable corpus: non-empty, every line usable.
pub open spec fn wf_lines(ls: Seq<String>) -> bool {
    ls.len() > 0 && forall|i: int| 0 <= i < ls.len() ==> wf_entry(#[trigger] ls[i]@)
}

/// The fragment is one of the corpus lines.
pub open spec fn in_lines(s: Seq<char>, ls: Seq<String>) -> bool {
    exists|i: int| 0 <= i < ls.len() && s == #[trigger] ls[i]@
}

/// Every line's readings are made of lowercase ASCII letters.
pub open spec fn lines_readings_letters(ls: Seq<String>) -> bool {
    forall|i: int| 0 <= i < ls.len() ==> readings_letters(#[trigger] ls[i]@)
}

/// A member of a corpus whose lines all have letters-only readings has
/// letters-only readings itself.
pub proof fn lemma_member_readings(s: Seq<char>, ls: Seq<String>)
    requires
        in_lines(s, ls),
        lines_readings_letters(ls),
    ensures
        readings_letters(s),
{
    let i = choose|i: int| 0 <= i < ls.len() && s == ls[i]@;
    assert(readings_letters(ls[i]@));
}

/// The lines that pass the construction check, kept in order.
pub open spec fn kept_lines(lines: Seq<String>) -> Seq<String>
    decreases lines.len(),
{
    if lines.len() == 0 {
        Seq::empty()
    } else {
        let rest = kept_lines(lines.drop_last());
        if wf_entry(lines.last()@) && readings_letters(lines.last()@) {
            rest.push(lines.last())
        } else {
            rest
        }
    }
}

/// A checked corpus either kept only lines with letters-only readings, or
/// every raw line failed the check and it degenerated to the single
/// fallback line.
pub open spec fn checked_or_fallback(ls: Seq<String>) -> bool {
    lines_readings_letters(ls) || (ls.len() == 1 && ls[0]@ == "明月"@)
}


/// The embedded poetry data, line by line, before the construction check.
#[verifier::opaque]
pub open spec fn default_poetry_raw() -> Seq<Seq<char>> {
    seq![
        "床前明月光"@,
        "疑是地上霜"@,
        "举头望明月"@,
        "低头思故乡"@,
        "春眠不觉晓"@,
        "处处闻啼鸟"@,
        "夜来风雨声"@,
        "花落知多少"@,
        "白日依山尽"@,
        "黄河入海流"@,
        "欲穷千里目"@,
        "更上一层楼"@,
        "红豆生南国"@,
        "春来发几枝"@,
        "愿君多采撷"@,
        "此物最相思"@,
        "空山不见人"@,
        "但闻人语响"@,
        "返景入深林"@,
        "复照青苔上"@,
        "千山鸟飞绝"@,
        "万径人踪灭"@,
        "孤舟蓑笠翁"@,
        "独钓寒江雪"@,
        "离离原上草"@,
        "一岁一枯荣"@,
        "野火烧不尽"@,
        "春风吹又生"@,
        "松下问童子"@,
        "言师采药去"@,
        "只在此山中"@,
        "云深不知处"@,
        "海上生明月"@,
        "天涯共此时"@,
        "海内存知己"@,
        "天涯若比邻"@,
        "会当凌绝顶"@,
        "一览众山小"@,
        "随风潜入夜"@,
        "润物细无声"@,
        "明月松间照"@,
        "清泉石上流"@,
        "大漠孤烟直"@,
        "长河落日圆"@,
        "月落乌啼霜满天"@,
        "江枫渔火对愁眠"@,
        "姑苏城外寒山寺"@,
        "夜半钟声到客船"@,
        "两个黄鹂鸣翠柳"@,
        "一行白鹭上青天"@,
        "窗含西岭千秋雪"@,
        "门泊东吴万里船"@,
        "日照香炉生紫烟"@,
        "遥看瀑布挂前川"@,
        "飞流直下三千尺"@,
        "疑是银河落九天"@,
        "朝辞白帝彩云间"@,
        "千里江陵一日还"@,
        "两岸猿声啼不住"@,
        "轻舟已过万重山"@,
        "秦时明月汉时关"@,
        "万里长征人未还"@,
        "但使龙城飞将在"@,
        "不教胡马度阴山"@,
    ]
}

/// The embedded word data, line by line, before the construction check.
#[verifier::opaque]
pub open spec fn default_words_raw() -> Seq<Seq<char>> {
    seq![
        "阳光"@,
        "月亮"@,
        "星空"@,
        "大海"@,
        "高山"@,
        "森林"@,
        "花朵"@,
        "小鸟"@,
        "白云"@,
        "清风"@,
        "春天"@,
        "夏天"@,
        "秋天"@,
        "冬天"@,
        "雪花"@,
        "彩虹"@,
        "梦想"@,
        "希望"@,
        "快乐"@,
        "幸福"@,
        "平安"@,
        "健康"@,
        "智慧"@,
        "勇气"@,
        "朋友"@,
        "家人"@,
        "时光"@,
        "岁月"@,
        "青春"@,
        "远方"@,
        "故乡"@,
        "天空"@,
        "河流"@,
        "湖水"@,
        "草原"@,
        "沙漠"@,
        "竹林"@,
        "梅花"@,
        "兰花"@,
        "菊花"@,
        "荷花"@,
        "桂花"@,
        "茶叶"@,
        "书香"@,
        "琴声"@,
        "棋盘"@,
        "画卷"@,
        "诗歌"@,
        "文章"@,
        "学问"@,
        "道路"@,
        "桥梁"@,
        "灯火"@,
        "黎明"@,
        "黄昏"@,
        "午后"@,
        "清晨"@,
        "夜晚"@,
        "宁静"@,
        "温暖"@,
    ]
}

/// The corpus lines match the given views, one for one, in order.
pub open spec fn matches_views(ls: Seq<String>, vs: Seq<Seq<char>>) -> bool {
    ls.len() == vs.len() && forall|i: int| 0 <= i < ls.len() ==> #[trigger] ls[i]@ == vs[i]
}

/// The views that pass the construction check, kept in order.
pub open spec fn kept_views(lines: Seq<Seq<char>>) -> Seq<Seq<char>>
    decreases lines.len(),
{
    if lines.len() == 0 {
        Seq::empty()
    } else {
        let rest = kept_views(lines.drop_last());
        if wf_entry(lines.last()) && readings_letters(lines.last()) {
            rest.push(lines.last())
        } else {
            rest
        }
    }
}

/// What a checked corpus holds, given the raw views: the checked lines,
/// or the single fallback line if none passed.
pub open spec fn checked_views(raw: Seq<Seq<char>>) -> Seq<Seq<char>> {
    if kept_views(raw).len() > 0 {
        kept_views(raw)
    } else {
        seq!["明月"@]
    }
}

/// Checking matching line sequences keeps them matching.
proof fn lemma_kept_views(lines: Seq<String>, vs: Seq<Seq<char>>)
    requires
        matches_views(lines, vs),
    ensures
        matches_views(kept_lines(lines), kept_views(vs)),
    decreases lines.len(),
{
    if lines.len() > 0 {
        assert forall|i: int|
            0 <= i < lines.drop_last().len() implies #[trigger] lines.drop_last()[i]@
            == vs.drop_last()[i] by {
            assert(lines.drop_last()[i] == lines[i] && vs.drop_last()[i] == vs[i]);
        }
        lemma_kept_views(lines.drop_last(), vs.drop_last());
        assert(lines.last()@ == vs.last());
        let rest = kept_lines(lines.drop_last());
        let vrest = kept_views(vs.drop_last());
        if wf_entry(lines.last()@) && readings_letters(lines.last()@) {
            assert forall|i: int| 0 <= i < kept_lines(lines).len() implies #[trigger] kept_lines(
                lines,
            )[i]@ == kept_views(vs)[i] by {
                if i < rest.len() {
                    assert(kept_lines(lines)[i] == rest[i]);
                    assert(kept_views(vs)[i] == vrest[i]);
                } else {
                    assert(kept_lines(lines)[i] == lines.last());
                    assert(kept_views(vs)[i] == vs.last());
                }
            }
        }
    }
}

/// Whether every character of the string is a lowercase ASCII letter.
fn all_letters(text: &str) -> (r: bool)
    ensures
        r == letters_seq(text@),
{
    let n = text.unicode_len();
    let mut i: usize = 0;
    while i < n
        invariant
            i <= n,
            n == text@.len(),
            forall|k: int| 0 <= k < i ==> lower_letter(#[trigger] text@[k]),
        decreases n - i,
    {
        let c = text.get_char(i);
        let u = c as u32;
        if u < 97 || u > 122 {
            return false;
        }
        i = i + 1;
    }
    true
}

/// Whether the line is usable and all its readings are letters-only.
fn entry_ok(line: &str) -> (r: bool)
    ensures
        r == (wf_entry(line@) && readings_letters(line@)),
{
    let n = line.unicode_len();
    if n == 0 || n > MAX_LINE_CHARS {
        return false;
    }
    let mut found_wide = false;
    let mut i: usize = 0;
    while i < n
        invariant
            i <= n,
            n == line@.len(),
            found_wide == has_wide_char(line@.take(i as int)),
            forall|k: int|
                0 <= k < i ==> (pinyin_plain(#[trigger] line@[k]) matches Some(p) ==> letters_seq(
                    p,
                )),
        decreases n - i,
    {
        let c = line.get_char(i);
        if c as u32 > 127 {
            found_wide = true;
        }
        match char_pinyin_plain(c) {
            Some(py) => {
                if !all_letters(py.as_str()) {
                    return false;
                }
            },
            None => {},
        }
        proof {
            let t = line@;
            assert(t.take(i + 1) =~= t.take(i as int).push(t[i as int]));
            if found_wide {
                if wide_char(t[i as int]) {
                    assert(t.take(i + 1)[i as int] == t[i as int]);
                } else {
                    let w = choose|j: int|
                        0 <= j < t.take(i as int).len() && wide_char(t.take(i as int)[j]);
                    assert(t.take(i + 1)[w] == t.take(i as int)[w]);
                }
            } else {
                assert forall|j: int| 0 <= j < i + 1 implies !wide_char(
                    #[trigger] t.take(i + 1)[j],
                ) by {
                    if j < i {
                        assert(t.take(i + 1)[j] == t.take(i as int)[j]);
                    }
                }
            }
        }
        i = i + 1;
    }
    proof {
        assert(line@.take(n as int) =~= line@);
    }
    found_wide
}

/// Keep exactly the lines that pass the construction check, in order.
fn sift(lines: Vec<String>) -> (r: Vec<String>)
    ensures
        r@ == kept_lines(lines@),
        forall|i: int|
            0 <= i < r@.len() ==> wf_entry(#[trigger] r@[i]@) && readings_letters(r@[i]@),
{
    let n = lines.len();
    let mut out: Vec<String> = Vec::new();
    let mut i: usize = 0;
    while i < n
        invariant
            i <= n,
            n == lines@.len(),
            out@ == kept_lines(lines@.take(i as int)),
            forall|k: int|
                0 <= k < out@.len() ==> wf_entry(#[trigger] out@[k]@) && readings_letters(
                    out@[k]@,
                ),
        decreases n - i,
    {
        if entry_ok(lines[i].as_str()) {
            out.push(lines[i].clone());
        }
        proof {
            let t = lines@;
            assert(t.take(i + 1).drop_last() =~= t.take(i as int));
            assert(t.take(i + 1).last() == t[i as int]);
            assert(out@ =~= kept_lines(t.take(i + 1)));
        }
        i = i + 1;
    }
    proof {
        assert(lines@.take(n as int) =~= lines@);
    }
    out
}

/// A last-resort line, used only if every raw line failed the check, so
/// that a corpus is never empty.
fn fallback_line() -> (r: String)
    ensures
        wf_entry(r@),
        r@ == "明月"@,
{
    let s = "明月".to_owned();
    proof {
        reveal_strlit("明月");
        assert(s@.len() == 2);
        assert(wide_char(s@[0]));
    }
    s
}

/// Check the raw lines and guarantee a non-empty result that holds
/// exactly the checked views of the raw data.
fn checked_corpus(raw: Vec<String>, Ghost(vs): Ghost<Seq<Seq<char>>>) -> (r: Vec<String>)
    requires
        matches_views(raw@, vs),
    ensures
        wf_lines(r@),
        checked_or_fallback(r@),
        matches_views(r@, checked_views(vs)),
{
    proof {
        lemma_kept_views(raw@, vs);
    }
    let mut v = sift(raw);
    if v.len() == 0 {
        v.push(fallback_line());
    }
    v
}

/// The built-in poetry corpus: classical verse lines.
#[verifier::rlimit(100)]
pub fn default_poetry() -> (r: Vec<String>)
    ensures
        wf_lines(r@),
        checked_or_fallback(r@),
        matches_views(r@, checked_views(default_poetry_raw())),
{
    let mut raw: Vec<String> = Vec::new();
    raw.push("床前明月光".to_owned());
    raw.push("疑是地上霜".to_owned());
    raw.push("举头望明月".to_owned());
    raw.push("低头思故乡".to_owned());
    raw.push("春眠不觉晓".to_owned());
    raw.push("处处闻啼鸟".to_owned());
    raw.push("夜来风雨声".to_owned());
    raw.push("花落知多少".to_owned());
    raw.push("白日依山尽".to_owned());
    raw.push("黄河入海流".to_owned());
    raw.push("欲穷千里目".to_owned());
    raw.push("更上一层楼".to_owned());
    raw.push("红豆生南国".to_owned());
    raw.push("春来发几枝".to_owned());
    raw.push("愿君多采撷".to_owned());
    raw.push("此物最相思".to_owned());
    raw.push("空山不见人".to_owned());
    raw.push("但闻人语响".to_owned());
    raw.push("返景入深林".to_owned());
    raw.push("复照青苔上".to_owned());
    raw.push("千山鸟飞绝".to_owned());
    raw.push("万径人踪灭".to_owned());
    raw.push("孤舟蓑笠翁".to_owned());
    raw.push("独钓寒江雪".to_owned());
    raw.push("离离原上草".to_owned());
    raw.push("一岁一枯荣".to_owned());
    raw.push("野火烧不尽".to_owned());
    raw.push("春风吹又生".to_owned());
    raw.push("松下问童子".to_owned());
    raw.push("言师采药去".to_owned());
    raw.push("只在此山中".to_owned());
    raw.push("云深不知处".to_owned());
    raw.push("海上生明月".to_owned());
    raw.push("天涯共此时".to_owned());
    raw.push("海内存知己".to_owned());
    raw.push("天涯若比邻".to_owned());
    raw.push("会当凌绝顶".to_owned());
    raw.push("一览众山小".to_owned());
    raw.push("随风潜入夜".to_owned());
    raw.push("润物细无声".to_owned());
    raw.push("明月松间照".to_owned());
    raw.push("清泉石上流".to_owned());
    raw.push("大漠孤烟直".to_owned());
    raw.push("长河落日圆".to_owned());
    raw.push("月落乌啼霜满天".to_owned());
    raw.push("江枫渔火对愁眠".to_owned());
    raw.push("姑苏城外寒山寺".to_owned());
    raw.push("夜半钟声到客船".to_owned());
    raw.push("两个黄鹂鸣翠柳".to_owned());
    raw.push("一行白鹭上青天".to_owned());
    raw.push("窗含西岭千秋雪".to_owned());
    raw.push("门泊东吴万里船".to_owned());
    raw.push("日照香炉生紫烟".to_owned());
    raw.push("遥看瀑布挂前川".to_owned());
    raw.push("飞流直下三千尺".to_owned());
    raw.push("疑是银河落九天".to_owned());
    raw.push("朝辞白帝彩云间".to_owned());
    raw.push("千里江陵一日还".to_owned());
    raw.push("两岸猿声啼不住".to_owned());
    raw.push("轻舟已过万重山".to_owned());
    raw.push("秦时明月汉时关".to_owned());
    raw.push("万里长征人未还".to_owned());
    raw.push("但使龙城飞将在".to_owned());
    raw.push("不教胡马度阴山".to_owned());
    proof {
        reveal(default_poetry_raw);
        assert(matches_views(raw@, default_poetry_raw()));
    }
    checked_corpus(raw, Ghost(default_poetry_raw()))
}

/// The built-in word corpus: short common words.
#[verifier::rlimit(100)]
pub fn default_words() -> (r: Vec<String>)
    ensures
        wf_lines(r@),
        checked_or_fallback(r@),
        matches_views(r@, checked_views(default_words_raw())),
{
    let mut raw: Vec<String> = Vec::new();
    raw.push("阳光".to_owned());
    raw.push("月亮".to_owned());
    raw.push("星空".to_owned());
    raw.push("大海".to_owned());
    raw.push("高山".to_owned());
    raw.push("森林".to_owned());
    raw.push("花朵".to_owned());
    raw.push("小鸟".to_owned());
    raw.push("白云".to_owned());
    raw.push("清风".to_owned());
    raw.push("春天".to_owned());
    raw.push("夏天".to_owned());
    raw.push("秋天".to_owned());
    raw.push("冬天".to_owned());
    raw.push("雪花".to_owned());
    raw.push("彩虹".to_owned());
    raw.push("梦想".to_owned());
    raw.push("希望".to_owned());
    raw.push("快乐".to_owned());
    raw.push("幸福".to_owned());
    raw.push("平安".to_owned());
    raw.push("健康".to_owned());
    raw.push("智慧".to_owned());
    raw.push("勇气".to_owned());
    raw.push("朋友".to_owned());
    raw.push("家人".to_owned());
    raw.push("时光".to_owned());
    raw.push("岁月".to_owned());
    raw.push("青春".to_owned());
    raw.push("远方".to_owned());
    raw.push("故乡".to_owned());
    raw.push("天空".to_owned());
    raw.push("河流".to_owned());
    raw.push("湖水".to_owned());
    raw.push("草原".to_owned());
    raw.push("沙漠".to_owned());
    raw.push("竹林".to_owned());
    raw.push("梅花".to_owned());
    raw.push("兰花".to_owned());
    raw.push("菊花".to_owned());
    raw.push("荷花".to_owned());
    raw.push("桂花".to_owned());
    raw.push("茶叶".to_owned());
    raw.push("书香".to_owned());
    raw.push("琴声".to_owned());
    raw.push("棋盘".to_owned());
    raw.push("画卷".to_owned());
    raw.push("诗歌".to_owned());
    raw.push("文章".to_owned());
    raw.push("学问".to_owned());
    raw.push("道路".to_owned());
    raw.push("桥梁".to_owned());
    raw.push("灯火".to_owned());
    raw.push("黎明".to_owned());
    raw.push("黄昏".to_owned());
    raw.push("午后".to_owned());
    raw.push("清晨".to_owned());
    raw.push("夜晚".to_owned());
    raw.push("宁静".to_owned());
    raw.push("温暖".to_owned());
    proof {
        reveal(default_words_raw);
        assert(matches_views(raw@, default_words_raw()));
    }
    checked_corpus(raw, Ghost(default_words_raw()))
}

} // verus!
