//! The names of QQ face expressions.
//!
//! The table covers the most commonly used QQ "super expressions" (超级表情). A face that it
//! does not know is written `[emoji:face_X]`.
use crate::json;
use crate::text::number;
use crate::text::ops;
use vstd::prelude::*;

verus! {

/// The greatest face number that a reverse lookup looks at.
pub const LAST_FACE: u16 = 500;

/// The name of the face with a number.
pub open spec fn numbered_name(number: u16) -> Option<Seq<char>> {
    match number {
        0 => Some("惊讶"@),
        1 => Some("撇嘴"@),
        2 => Some("色"@),
        3 => Some("发呆"@),
        4 => Some("得意"@),
        5 => Some("流泪"@),
        6 => Some("害羞"@),
        7 => Some("闭嘴"@),
        8 => Some("睡"@),
        9 => Some("大哭"@),
        10 => Some("尴尬"@),
        11 => Some("发怒"@),
        12 => Some("调皮"@),
        13 => Some("呲牙"@),
        14 => Some("微笑"@),
        15 => Some("难过"@),
        16 => Some("酷"@),
        18 => Some("抓狂"@),
        19 => Some("吐"@),
        20 => Some("偷笑"@),
        21 => Some("可爱"@),
        22 => Some("白眼"@),
        23 => Some("傲慢"@),
        24 => Some("饥饿"@),
        25 => Some("困"@),
        26 => Some("惊恐"@),
        27 => Some("流汗"@),
        28 => Some("憨笑"@),
        29 => Some("悠闲"@),
        30 => Some("奋斗"@),
        31 => Some("咒骂"@),
        32 => Some("疑问"@),
        33 => Some("嘘"@),
        34 => Some("晕"@),
        35 => Some("折磨"@),
        36 => Some("衰"@),
        37 => Some("骷髅"@),
        38 => Some("敲打"@),
        39 => Some("再见"@),
        46 => Some("猪头"@),
        49 => Some("拥抱"@),
        53 => Some("蛋糕"@),
        59 => Some("便便"@),
        60 => Some("咖啡"@),
        63 => Some("玫瑰"@),
        66 => Some("爱心"@),
        74 => Some("太阳"@),
        75 => Some("月亮"@),
        76 => Some("赞"@),
        78 => Some("握手"@),
        79 => Some("胜利"@),
        85 => Some("飞吻"@),
        96 => Some("冷汗"@),
        97 => Some("擦汗"@),
        98 => Some("抠鼻"@),
        99 => Some("鼓掌"@),
        100 => Some("糗大了"@),
        101 => Some("坏笑"@),
        102 => Some("左哼哼"@),
        103 => Some("右哼哼"@),
        104 => Some("哈欠"@),
        106 => Some("委屈"@),
        109 => Some("左亲亲"@),
        111 => Some("可怜"@),
        112 => Some("菜刀"@),
        113 => Some("啤酒"@),
        116 => Some("示爱"@),
        118 => Some("抱拳"@),
        120 => Some("拳头"@),
        122 => Some("爱你"@),
        123 => Some("NO"@),
        124 => Some("OK"@),
        125 => Some("转圈"@),
        129 => Some("挥手"@),
        144 => Some("喝彩"@),
        147 => Some("棒棒糖"@),
        171 => Some("茶"@),
        173 => Some("泪奔"@),
        174 => Some("无奈"@),
        175 => Some("卖萌"@),
        176 => Some("小纠结"@),
        178 => Some("斜眼笑"@),
        179 => Some("doge"@),
        180 => Some("惊喜"@),
        181 => Some("哈哈"@),
        182 => Some("笑哭"@),
        183 => Some("面无表情"@),
        201 => Some("点赞"@),
        203 => Some("拜托"@),
        205 => Some("送花"@),
        212 => Some("托腮"@),
        214 => Some("啵啵"@),
        219 => Some("抱抱"@),
        222 => Some("摸头"@),
        262 => Some("不看"@),
        264 => Some("捂脸"@),
        265 => Some("辣眼睛"@),
        271 => Some("吃瓜"@),
        272 => Some("呵呵"@),
        273 => Some("黑脸"@),
        277 => Some("加油"@),
        281 => Some("沉默"@),
        282 => Some("笑眼"@),
        287 => Some("白眼"@),
        289 => Some("亲亲"@),
        290 => Some("开心"@),
        293 => Some("期待"@),
        294 => Some("捂嘴笑"@),
        305 => Some("脑阔疼"@),
        306 => Some("沧桑"@),
        311 => Some("打call"@),
        312 => Some("变形"@),
        314 => Some("暗中观察"@),
        317 => Some("问号脸"@),
        318 => Some("嘿哈"@),
        319 => Some("捂脸"@),
        320 => Some("社会社会"@),
        322 => Some("我的天"@),
        326 => Some("喷脸"@),
        327 => Some("打脸"@),
        336 => Some("汪汪"@),
        337 => Some("喵喵"@),
        338 => Some("牛气冲天"@),
        340 => Some("无眼笑"@),
        341 => Some("敬礼"@),
        343 => Some("面无表情"@),
        344 => Some("摸鱼"@),
        345 => Some("哦"@),
        346 => Some("请"@),
        347 => Some("拜拜"@),
        349 => Some("坚强"@),
        350 => Some("贴贴"@),
        351 => Some("敲敲"@),
        352 => Some("咦"@),
        353 => Some("拜托"@),
        354 => Some("尊嘟假嘟"@),
        355 => Some("耶"@),
        356 => Some("666"@),
        357 => Some("裂开"@),
        _ => None,
    }
}

/// The name of the face with an id: the decimal form of its number, without leading zeros.
pub open spec fn name_of(id: Seq<char>) -> Option<Seq<char>> {
    match number::parsed_unsigned(id, u16::MAX as nat) {
        Ok(n) => if number::dec_nat(n) == id {
            numbered_name(n as u16)
        } else {
            None
        },
        Err(_) => None,
    }
}

/// The least face number from `from` on with a name.
pub open spec fn least_number(name: Seq<char>, from: int) -> Option<int>
    decreases LAST_FACE + 1 - from,
{
    if from < 0 || from > LAST_FACE {
        None
    } else if numbered_name(from as u16) == Some(name) {
        Some(from)
    } else {
        least_number(name, from + 1)
    }
}

fn numbered_face(number: u16) -> (r: Option<&'static str>)
    ensures
        json::str_view(r) == numbered_name(number),
{
    match number {
        0 => Some("惊讶"),
        1 => Some("撇嘴"),
        2 => Some("色"),
        3 => Some("发呆"),
        4 => Some("得意"),
        5 => Some("流泪"),
        6 => Some("害羞"),
        7 => Some("闭嘴"),
        8 => Some("睡"),
        9 => Some("大哭"),
        10 => Some("尴尬"),
        11 => Some("发怒"),
        12 => Some("调皮"),
        13 => Some("呲牙"),
        14 => Some("微笑"),
        15 => Some("难过"),
        16 => Some("酷"),
        18 => Some("抓狂"),
        19 => Some("吐"),
        20 => Some("偷笑"),
        21 => Some("可爱"),
        22 => Some("白眼"),
        23 => Some("傲慢"),
        24 => Some("饥饿"),
        25 => Some("困"),
        26 => Some("惊恐"),
        27 => Some("流汗"),
        28 => Some("憨笑"),
        29 => Some("悠闲"),
        30 => Some("奋斗"),
        31 => Some("咒骂"),
        32 => Some("疑问"),
        33 => Some("嘘"),
        34 => Some("晕"),
        35 => Some("折磨"),
        36 => Some("衰"),
        37 => Some("骷髅"),
        38 => Some("敲打"),
        39 => Some("再见"),
        46 => Some("猪头"),
        49 => Some("拥抱"),
        53 => Some("蛋糕"),
        59 => Some("便便"),
        60 => Some("咖啡"),
        63 => Some("玫瑰"),
        66 => Some("爱心"),
        74 => Some("太阳"),
        75 => Some("月亮"),
        76 => Some("赞"),
        78 => Some("握手"),
        79 => Some("胜利"),
        85 => Some("飞吻"),
        96 => Some("冷汗"),
        97 => Some("擦汗"),
        98 => Some("抠鼻"),
        99 => Some("鼓掌"),
        100 => Some("糗大了"),
        101 => Some("坏笑"),
        102 => Some("左哼哼"),
        103 => Some("右哼哼"),
        104 => Some("哈欠"),
        106 => Some("委屈"),
        109 => Some("左亲亲"),
        111 => Some("可怜"),
        112 => Some("菜刀"),
        113 => Some("啤酒"),
        116 => Some("示爱"),
        118 => Some("抱拳"),
        120 => Some("拳头"),
        122 => Some("爱你"),
        123 => Some("NO"),
        124 => Some("OK"),
        125 => Some("转圈"),
        129 => Some("挥手"),
        144 => Some("喝彩"),
        147 => Some("棒棒糖"),
        171 => Some("茶"),
        173 => Some("泪奔"),
        174 => Some("无奈"),
        175 => Some("卖萌"),
        176 => Some("小纠结"),
        178 => Some("斜眼笑"),
        179 => Some("doge"),
        180 => Some("惊喜"),
        181 => Some("哈哈"),
        182 => Some("笑哭"),
        183 => Some("面无表情"),
        201 => Some("点赞"),
        203 => Some("拜托"),
        205 => Some("送花"),
        212 => Some("托腮"),
        214 => Some("啵啵"),
        219 => Some("抱抱"),
        222 => Some("摸头"),
        262 => Some("不看"),
        264 => Some("捂脸"),
        265 => Some("辣眼睛"),
        271 => Some("吃瓜"),
        272 => Some("呵呵"),
        273 => Some("黑脸"),
        277 => Some("加油"),
        281 => Some("沉默"),
        282 => Some("笑眼"),
        287 => Some("白眼"),
        289 => Some("亲亲"),
        290 => Some("开心"),
        293 => Some("期待"),
        294 => Some("捂嘴笑"),
        305 => Some("脑阔疼"),
        306 => Some("沧桑"),
        311 => Some("打call"),
        312 => Some("变形"),
        314 => Some("暗中观察"),
        317 => Some("问号脸"),
        318 => Some("嘿哈"),
        319 => Some("捂脸"),
        320 => Some("社会社会"),
        322 => Some("我的天"),
        326 => Some("喷脸"),
        327 => Some("打脸"),
        336 => Some("汪汪"),
        337 => Some("喵喵"),
        338 => Some("牛气冲天"),
        340 => Some("无眼笑"),
        341 => Some("敬礼"),
        343 => Some("面无表情"),
        344 => Some("摸鱼"),
        345 => Some("哦"),
        346 => Some("请"),
        347 => Some("拜拜"),
        349 => Some("坚强"),
        350 => Some("贴贴"),
        351 => Some("敲敲"),
        352 => Some("咦"),
        353 => Some("拜托"),
        354 => Some("尊嘟假嘟"),
        355 => Some("耶"),
        356 => Some("666"),
        357 => Some("裂开"),
        _ => None,
    }
}

/// The name of a QQ face expression, by its id.
pub fn face_name(id: &str) -> (r: Option<&'static str>)
    ensures
        json::str_view(r) == name_of(id@),
{
    match number::parse_unsigned(id, u16::MAX as u64) {
        Ok(n) => if ops::same(&number::dec_u64(n), id) {
            numbered_face(n as u16)
        } else {
            None
        },
        Err(_) => None,
    }
}

/// The id of a QQ face expression, by its name. Of several with one name it is the first.
pub fn face_id(name: &str) -> (r: Option<String>)
    ensures
        match least_number(name@, 0) {
            Some(n) => r is Some && r->0@ == number::dec(n),
            None => r is None,
        },
{
    let mut n: u16 = 0;
    while n <= LAST_FACE
        invariant
            n <= LAST_FACE + 1,
            least_number(name@, 0) == least_number(name@, n as int),
        decreases LAST_FACE + 1 - n,
    {
        if let Some(found) = numbered_face(n) {
            if ops::same(found, name) {
                return Some(number::dec_u64(n as u64));
            }
        }
        n += 1;
    }
    None
}

proof fn lemma_least_number(name: Seq<char>, from: int)
    requires
        0 <= from,
    ensures
        least_number(name, from) matches Some(n) ==> {
            &&& from <= n <= LAST_FACE
            &&& numbered_name(n as u16) == Some(name)
            &&& forall|k: int| from <= k < n ==> #[trigger] numbered_name(k as u16) != Some(name)
        },
        least_number(name, from) is None ==> forall|k: int|
            from <= k <= LAST_FACE ==> #[trigger] numbered_name(k as u16) != Some(name),
    decreases LAST_FACE + 1 - from,
{
    if from <= LAST_FACE && numbered_name(from as u16) != Some(name) {
        lemma_least_number(name, from + 1);
    }
}

/// The face that a name is looked up to has that name, and no face before it has.
pub proof fn law_face_of_a_name_has_the_name(name: Seq<char>)
    ensures
        least_number(name, 0) matches Some(n) ==> {
            &&& name_of(number::dec(n)) == Some(name)
            &&& forall|k: int| 0 <= k < n ==> name_of(#[trigger] number::dec(k)) != Some(name)
        },
{
    lemma_least_number(name, 0);
    if let Some(n) = least_number(name, 0) {
        number::lemma_parse_of_dec_unsigned(n as nat, u16::MAX as nat);
        assert forall|k: int| 0 <= k < n implies name_of(#[trigger] number::dec(k)) != Some(name) by {
            number::lemma_parse_of_dec_unsigned(k as nat, u16::MAX as nat);
            assert(numbered_name(k as u16) != Some(name));
        }
    }
}

/// Every face that has a name is found by it.
pub proof fn law_every_named_face_is_found(id: Seq<char>)
    ensures
        name_of(id) matches Some(name) ==> least_number(name, 0) is Some,
{
    if let Some(name) = name_of(id) {
        lemma_least_number(name, 0);
        let n = number::parsed_unsigned(id, u16::MAX as nat)->Ok_0;
        lemma_named_in_range(n as u16);
        assert(n as u16 <= LAST_FACE);
        let k = (n as u16) as int;
        assert(numbered_name(k as u16) == Some(name));
    }
}

proof fn lemma_named_in_range(number: u16)
    ensures
        numbered_name(number) is Some ==> number <= LAST_FACE,
{
}

} // verus!
