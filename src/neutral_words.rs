//! The closed word lists of the neutral-tone rule.
use vstd::prelude::*;
use crate::pinyin::{is2, is3, is4};

verus! {

/// Whether the two characters `a b` form a word whose second syllable is
/// always neutral (麻烦, 豆腐, 东西, ...).
pub open spec fn must_neutral_pair(a: char, b: char) -> bool {
    (a == '麻' && (b == '烦' || b == '利')) ||
    (a == '鸳' && b == '鸯') ||
    (a == '高' && b == '粱') ||
    (a == '骨' && b == '头') ||
    (a == '骆' && b == '驼') ||
    (a == '马' && b == '虎') ||
    (a == '首' && b == '饰') ||
    (a == '馒' && b == '头') ||
    (a == '馄' && b == '饨') ||
    (a == '风' && b == '筝') ||
    (a == '难' && b == '为') ||
    (a == '队' && b == '伍') ||
    (a == '阔' && b == '气') ||
    (a == '闺' && b == '女') ||
    (a == '门' && b == '道') ||
    (a == '锄' && b == '头') ||
    (a == '铺' && b == '盖') ||
    (a == '铃' && b == '铛') ||
    (a == '铁' && b == '匠') ||
    (a == '钥' && b == '匙') ||
    (a == '里' && (b == '脊' || b == '头')) ||
    (a == '部' && b == '分') ||
    (a == '那' && (b == '么' || b == '个')) ||
    (a == '道' && b == '士') ||
    (a == '造' && b == '化') ||
    (a == '迷' && b == '糊') ||
    (a == '连' && b == '累') ||
    (a == '这' && (b == '么' || b == '个')) ||
    (a == '运' && b == '气') ||
    (a == '过' && b == '去') ||
    (a == '软' && b == '和') ||
    (a == '转' && b == '悠') ||
    (a == '踏' && b == '实') ||
    (a == '跳' && b == '蚤') ||
    (a == '跟' && b == '头') ||
    (a == '趔' && b == '趄') ||
    (a == '财' && b == '主') ||
    (a == '豆' && b == '腐') ||
    (a == '讲' && b == '究') ||
    (a == '记' && (b == '性' || b == '号')) ||
    (a == '认' && b == '识') ||
    (a == '规' && b == '矩') ||
    (a == '见' && b == '识') ||
    (a == '裁' && b == '缝') ||
    (a == '补' && b == '丁') ||
    (a == '衣' && (b == '裳' || b == '服')) ||
    (a == '衙' && b == '门') ||
    (a == '街' && b == '坊') ||
    (a == '行' && (b == '李' || b == '当')) ||
    (a == '蛤' && b == '蟆') ||
    (a == '蘑' && b == '菇') ||
    (a == '薄' && b == '荷') ||
    (a == '葫' && b == '芦') ||
    (a == '葡' && b == '萄') ||
    (a == '萝' && b == '卜') ||
    (a == '荸' && b == '荠') ||
    (a == '苗' && (b == '条' || b == '头')) ||
    (a == '苍' && b == '蝇') ||
    (a == '芝' && b == '麻') ||
    (a == '舒' && (b == '服' || b == '坦')) ||
    (a == '舌' && b == '头') ||
    (a == '自' && b == '在') ||
    (a == '膏' && b == '药') ||
    (a == '脾' && b == '气') ||
    (a == '脑' && b == '袋') ||
    (a == '脊' && b == '梁') ||
    (a == '能' && b == '耐') ||
    (a == '胳' && b == '膊') ||
    (a == '胭' && b == '脂') ||
    (a == '胡' && (b == '萝' || b == '琴' || b == '同')) ||
    (a == '聪' && b == '明') ||
    (a == '耽' && (b == '误' || b == '搁')) ||
    (a == '耷' && b == '拉') ||
    (a == '耳' && b == '朵') ||
    (a == '老' && (b == '爷' || b == '实' || b == '婆' || b == '头' || b == '太')) ||
    (a == '翻' && b == '腾') ||
    (a == '罗' && b == '嗦') ||
    (a == '罐' && b == '头') ||
    (a == '编' && b == '辑') ||
    (a == '结' && b == '实') ||
    (a == '红' && b == '火') ||
    (a == '累' && b == '赘') ||
    (a == '糨' && b == '糊') ||
    (a == '糊' && b == '涂') ||
    (a == '精' && b == '神') ||
    (a == '粮' && b == '食') ||
    (a == '簸' && b == '箕') ||
    (a == '篱' && b == '笆') ||
    (a == '算' && (b == '计' || b == '盘')) ||
    (a == '答' && b == '应') ||
    (a == '笤' && b == '帚') ||
    (a == '笑' && (b == '语' || b == '话')) ||
    (a == '窟' && b == '窿') ||
    (a == '窝' && b == '囊') ||
    (a == '窗' && b == '户') ||
    (a == '稳' && b == '当') ||
    (a == '稀' && b == '罕') ||
    (a == '称' && b == '呼') ||
    (a == '秧' && b == '歌') ||
    (a == '秀' && (b == '气' || b == '才')) ||
    (a == '福' && b == '气') ||
    (a == '祖' && b == '宗') ||
    (a == '砚' && b == '台') ||
    (a == '码' && b == '头') ||
    (a == '石' && (b == '榴' || b == '头' || b == '匠')) ||
    (a == '知' && b == '识') ||
    (a == '眼' && b == '睛') ||
    (a == '眯' && b == '缝') ||
    (a == '眨' && b == '巴') ||
    (a == '眉' && b == '毛') ||
    (a == '相' && b == '声') ||
    (a == '盘' && (b == '算' || b == '缠')) ||
    (a == '白' && b == '净') ||
    (a == '痢' && b == '疾') ||
    (a == '痛' && b == '快') ||
    (a == '疟' && b == '疾') ||
    (a == '疙' && b == '瘩') ||
    (a == '疏' && b == '忽') ||
    (a == '畜' && b == '生') ||
    (a == '生' && b == '意') ||
    (a == '甘' && b == '蔗') ||
    (a == '琵' && b == '琶') ||
    (a == '琢' && b == '磨') ||
    (a == '琉' && b == '璃') ||
    (a == '玻' && b == '璃') ||
    (a == '玫' && b == '瑰') ||
    (a == '玄' && b == '乎') ||
    (a == '狐' && b == '狸') ||
    (a == '状' && b == '元') ||
    (a == '特' && b == '务') ||
    (a == '牲' && b == '口') ||
    (a == '牙' && b == '碜') ||
    (a == '牌' && b == '楼') ||
    (a == '爽' && b == '快') ||
    (a == '爱' && b == '人') ||
    (a == '热' && b == '闹') ||
    (a == '烧' && b == '饼') ||
    (a == '烟' && b == '筒') ||
    (a == '烂' && b == '糊') ||
    (a == '点' && b == '心') ||
    (a == '炊' && b == '帚') ||
    (a == '灯' && b == '笼') ||
    (a == '火' && b == '候') ||
    (a == '漂' && b == '亮') ||
    (a == '滑' && b == '溜') ||
    (a == '溜' && b == '达') ||
    (a == '温' && b == '和') ||
    (a == '清' && b == '楚') ||
    (a == '消' && b == '息') ||
    (a == '浪' && b == '头') ||
    (a == '活' && b == '泼') ||
    (a == '比' && b == '方') ||
    (a == '正' && b == '经') ||
    (a == '欺' && b == '负') ||
    (a == '模' && b == '糊') ||
    (a == '槟' && b == '榔') ||
    (a == '棺' && b == '材') ||
    (a == '棒' && b == '槌') ||
    (a == '棉' && b == '花') ||
    (a == '核' && b == '桃') ||
    (a == '栅' && b == '栏') ||
    (a == '柴' && b == '火') ||
    (a == '架' && b == '势') ||
    (a == '枕' && b == '头') ||
    (a == '枇' && b == '杷') ||
    (a == '机' && b == '灵') ||
    (a == '本' && b == '事') ||
    (a == '木' && (b == '头' || b == '匠')) ||
    (a == '朋' && b == '友') ||
    (a == '月' && (b == '饼' || b == '亮')) ||
    (a == '暖' && b == '和') ||
    (a == '明' && b == '白') ||
    (a == '时' && b == '候') ||
    (a == '新' && b == '鲜') ||
    (a == '故' && b == '事') ||
    (a == '收' && (b == '拾' || b == '成')) ||
    (a == '提' && b == '防') ||
    (a == '挖' && b == '苦') ||
    (a == '挑' && b == '剔') ||
    (a == '指' && (b == '甲' || b == '头')) ||
    (a == '拾' && b == '掇') ||
    (a == '拳' && b == '头') ||
    (a == '拨' && b == '弄') ||
    (a == '招' && (b == '牌' || b == '呼')) ||
    (a == '抬' && b == '举') ||
    (a == '护' && b == '士') ||
    (a == '折' && b == '腾') ||
    (a == '扫' && (b == '帚' || b == '把')) ||
    (a == '打' && (b == '量' || b == '算' || b == '点' || b == '扮' || b == '听' || b == '发')) ||
    (a == '扎' && b == '实') ||
    (a == '扁' && b == '担') ||
    (a == '戒' && b == '指') ||
    (a == '懒' && b == '得') ||
    (a == '意' && (b == '识' || b == '思')) ||
    (a == '情' && b == '形') ||
    (a == '悟' && b == '性') ||
    (a == '怪' && b == '物') ||
    (a == '思' && b == '量') ||
    (a == '怎' && b == '么') ||
    (a == '念' && (b == '头' || b == '叨')) ||
    (a == '快' && b == '活') ||
    (a == '忙' && b == '活') ||
    (a == '志' && b == '气') ||
    (a == '心' && b == '思') ||
    (a == '得' && b == '罪') ||
    (a == '张' && b == '罗') ||
    (a == '弟' && b == '兄') ||
    (a == '开' && b == '通') ||
    (a == '应' && b == '酬') ||
    (a == '庄' && b == '稼') ||
    (a == '干' && b == '事') ||
    (a == '帮' && b == '手') ||
    (a == '帐' && b == '篷') ||
    (a == '希' && b == '罕') ||
    (a == '师' && (b == '父' || b == '傅')) ||
    (a == '巴' && (b == '结' || b == '掌')) ||
    (a == '差' && b == '事') ||
    (a == '工' && b == '夫') ||
    (a == '岁' && b == '数') ||
    (a == '屁' && b == '股') ||
    (a == '尾' && b == '巴') ||
    (a == '少' && b == '爷') ||
    (a == '小' && (b == '气' || b == '伙')) ||
    (a == '将' && b == '就') ||
    (a == '对' && (b == '头' || b == '付')) ||
    (a == '寡' && b == '妇') ||
    (a == '家' && b == '伙') ||
    (a == '客' && b == '气') ||
    (a == '实' && b == '在') ||
    (a == '官' && b == '司') ||
    (a == '学' && (b == '问' || b == '生')) ||
    (a == '字' && b == '号') ||
    (a == '嫁' && b == '妆') ||
    (a == '媳' && b == '妇') ||
    (a == '媒' && b == '人') ||
    (a == '婆' && b == '家') ||
    (a == '娘' && b == '家') ||
    (a == '委' && b == '屈') ||
    (a == '姑' && b == '娘') ||
    (a == '姐' && b == '夫') ||
    (a == '妯' && b == '娌') ||
    (a == '妥' && b == '当') ||
    (a == '妖' && b == '精') ||
    (a == '奴' && b == '才') ||
    (a == '女' && b == '婿') ||
    (a == '头' && b == '发') ||
    (a == '太' && b == '阳') ||
    (a == '大' && (b == '爷' || b == '方' || b == '意' || b == '夫' || b == '人')) ||
    (a == '多' && (b == '少' || b == '么')) ||
    (a == '外' && b == '甥') ||
    (a == '壮' && b == '实') ||
    (a == '地' && (b == '道' || b == '方')) ||
    (a == '在' && b == '乎') ||
    (a == '困' && b == '难') ||
    (a == '嘴' && b == '巴') ||
    (a == '嘱' && b == '咐') ||
    (a == '嘟' && b == '囔') ||
    (a == '嘀' && b == '咕') ||
    (a == '喜' && b == '欢') ||
    (a == '喇' && (b == '嘛' || b == '叭')) ||
    (a == '商' && b == '量') ||
    (a == '唾' && b == '沫') ||
    (a == '哑' && b == '巴') ||
    (a == '哈' && b == '欠') ||
    (a == '哆' && b == '嗦') ||
    (a == '咳' && b == '嗽') ||
    (a == '和' && b == '尚') ||
    (a == '告' && (b == '诉' || b == '示')) ||
    (a == '含' && b == '糊') ||
    (a == '吓' && b == '唬') ||
    (a == '后' && b == '头') ||
    (a == '名' && (b == '字' || b == '堂')) ||
    (a == '合' && b == '同') ||
    (a == '吆' && b == '喝') ||
    (a == '叫' && b == '唤') ||
    (a == '口' && b == '袋') ||
    (a == '厚' && b == '道') ||
    (a == '厉' && b == '害') ||
    (a == '千' && b == '斤') ||
    (a == '包' && (b == '袱' || b == '涵')) ||
    (a == '匀' && b == '称') ||
    (a == '勤' && b == '快') ||
    (a == '动' && (b == '静' || b == '弹')) ||
    (a == '功' && b == '夫') ||
    (a == '力' && b == '气') ||
    (a == '前' && b == '头') ||
    (a == '刺' && (b == '猬' || b == '激')) ||
    (a == '别' && b == '扭') ||
    (a == '利' && (b == '落' || b == '索' || b == '害')) ||
    (a == '分' && b == '析') ||
    (a == '出' && b == '息') ||
    (a == '凑' && b == '合') ||
    (a == '凉' && b == '快') ||
    (a == '冷' && b == '战') ||
    (a == '冤' && (b == '枉' || b == '家')) ||
    (a == '冒' && b == '失') ||
    (a == '养' && b == '活') ||
    (a == '关' && b == '系') ||
    (a == '先' && b == '生') ||
    (a == '兄' && b == '弟') ||
    (a == '便' && b == '宜') ||
    (a == '使' && b == '唤') ||
    (a == '佩' && b == '服') ||
    (a == '作' && b == '坊') ||
    (a == '体' && b == '面') ||
    (a == '位' && b == '置') ||
    (a == '似' && b == '的') ||
    (a == '伙' && b == '计') ||
    (a == '休' && b == '息') ||
    (a == '什' && b == '么') ||
    (a == '人' && b == '家') ||
    (a == '亲' && (b == '戚' || b == '家')) ||
    (a == '交' && b == '情') ||
    (a == '云' && b == '彩') ||
    (a == '事' && b == '情') ||
    (a == '买' && b == '卖') ||
    (a == '主' && b == '意') ||
    (a == '丫' && b == '头') ||
    (a == '丧' && b == '气') ||
    (a == '两' && b == '口') ||
    (a == '东' && (b == '西' || b == '家')) ||
    (a == '世' && b == '故') ||
    (a == '不' && (b == '由' || b == '在')) ||
    (a == '下' && (b == '水' || b == '巴')) ||
    (a == '上' && (b == '头' || b == '司')) ||
    (a == '丈' && (b == '夫' || b == '人')) ||
    (a == '一' && b == '辈') ||
    (a == '菩' && b == '萨') ||
    (a == '父' && b == '亲') ||
    (a == '母' && b == '亲') ||
    (a == '咕' && b == '噜') ||
    (a == '邋' && b == '遢') ||
    (a == '费' && b == '用') ||
    (a == '甜' && b == '头') ||
    (a == '介' && b == '绍') ||
    (a == '荒' && b == '唐') ||
    (a == '泥' && b == '鳅') ||
    (a == '幸' && b == '福') ||
    (a == '熟' && b == '悉') ||
    (a == '计' && b == '划') ||
    (a == '扑' && b == '腾') ||
    (a == '蜡' && b == '烛') ||
    (a == '姥' && b == '爷') ||
    (a == '照' && b == '顾') ||
    (a == '喉' && b == '咙') ||
    (a == '吉' && b == '他') ||
    (a == '弄' && b == '堂') ||
    (a == '蚂' && b == '蚱') ||
    (a == '凤' && b == '凰') ||
    (a == '拖' && b == '沓') ||
    (a == '寒' && b == '碜') ||
    (a == '糟' && b == '蹋') ||
    (a == '倒' && b == '腾') ||
    (a == '报' && b == '复') ||
    (a == '逻' && b == '辑') ||
    (a == '喽' && b == '啰') ||
    (a == '牢' && b == '骚') ||
    (a == '咖' && b == '喱') ||
    (a == '惦' && b == '记')
}

/// Whether `a b` is a word whose second syllable is always neutral (see
/// `must_neutral_pair`).
pub fn is_must_neutral_pair(a: char, b: char) -> (r: bool)
    ensures
        r == must_neutral_pair(a, b),
{
    (a == '麻' && (b == '烦' || b == '利')) ||
    (a == '鸳' && b == '鸯') ||
    (a == '高' && b == '粱') ||
    (a == '骨' && b == '头') ||
    (a == '骆' && b == '驼') ||
    (a == '马' && b == '虎') ||
    (a == '首' && b == '饰') ||
    (a == '馒' && b == '头') ||
    (a == '馄' && b == '饨') ||
    (a == '风' && b == '筝') ||
    (a == '难' && b == '为') ||
    (a == '队' && b == '伍') ||
    (a == '阔' && b == '气') ||
    (a == '闺' && b == '女') ||
    (a == '门' && b == '道') ||
    (a == '锄' && b == '头') ||
    (a == '铺' && b == '盖') ||
    (a == '铃' && b == '铛') ||
    (a == '铁' && b == '匠') ||
    (a == '钥' && b == '匙') ||
    (a == '里' && (b == '脊' || b == '头')) ||
    (a == '部' && b == '分') ||
    (a == '那' && (b == '么' || b == '个')) ||
    (a == '道' && b == '士') ||
    (a == '造' && b == '化') ||
    (a == '迷' && b == '糊') ||
    (a == '连' && b == '累') ||
    (a == '这' && (b == '么' || b == '个')) ||
    (a == '运' && b == '气') ||
    (a == '过' && b == '去') ||
    (a == '软' && b == '和') ||
    (a == '转' && b == '悠') ||
    (a == '踏' && b == '实') ||
    (a == '跳' && b == '蚤') ||
    (a == '跟' && b == '头') ||
    (a == '趔' && b == '趄') ||
    (a == '财' && b == '主') ||
    (a == '豆' && b == '腐') ||
    (a == '讲' && b == '究') ||
    (a == '记' && (b == '性' || b == '号')) ||
    (a == '认' && b == '识') ||
    (a == '规' && b == '矩') ||
    (a == '见' && b == '识') ||
    (a == '裁' && b == '缝') ||
    (a == '补' && b == '丁') ||
    (a == '衣' && (b == '裳' || b == '服')) ||
    (a == '衙' && b == '门') ||
    (a == '街' && b == '坊') ||
    (a == '行' && (b == '李' || b == '当')) ||
    (a == '蛤' && b == '蟆') ||
    (a == '蘑' && b == '菇') ||
    (a == '薄' && b == '荷') ||
    (a == '葫' && b == '芦') ||
    (a == '葡' && b == '萄') ||
    (a == '萝' && b == '卜') ||
    (a == '荸' && b == '荠') ||
    (a == '苗' && (b == '条' || b == '头')) ||
    (a == '苍' && b == '蝇') ||
    (a == '芝' && b == '麻') ||
    (a == '舒' && (b == '服' || b == '坦')) ||
    (a == '舌' && b == '头') ||
    (a == '自' && b == '在') ||
    (a == '膏' && b == '药') ||
    (a == '脾' && b == '气') ||
    (a == '脑' && b == '袋') ||
    (a == '脊' && b == '梁') ||
    (a == '能' && b == '耐') ||
    (a == '胳' && b == '膊') ||
    (a == '胭' && b == '脂') ||
    (a == '胡' && (b == '萝' || b == '琴' || b == '同')) ||
    (a == '聪' && b == '明') ||
    (a == '耽' && (b == '误' || b == '搁')) ||
    (a == '耷' && b == '拉') ||
    (a == '耳' && b == '朵') ||
    (a == '老' && (b == '爷' || b == '实' || b == '婆' || b == '头' || b == '太')) ||
    (a == '翻' && b == '腾') ||
    (a == '罗' && b == '嗦') ||
    (a == '罐' && b == '头') ||
    (a == '编' && b == '辑') ||
    (a == '结' && b == '实') ||
    (a == '红' && b == '火') ||
    (a == '累' && b == '赘') ||
    (a == '糨' && b == '糊') ||
    (a == '糊' && b == '涂') ||
    (a == '精' && b == '神') ||
    (a == '粮' && b == '食') ||
    (a == '簸' && b == '箕') ||
    (a == '篱' && b == '笆') ||
    (a == '算' && (b == '计' || b == '盘')) ||
    (a == '答' && b == '应') ||
    (a == '笤' && b == '帚') ||
    (a == '笑' && (b == '语' || b == '话')) ||
    (a == '窟' && b == '窿') ||
    (a == '窝' && b == '囊') ||
    (a == '窗' && b == '户') ||
    (a == '稳' && b == '当') ||
    (a == '稀' && b == '罕') ||
    (a == '称' && b == '呼') ||
    (a == '秧' && b == '歌') ||
    (a == '秀' && (b == '气' || b == '才')) ||
    (a == '福' && b == '气') ||
    (a == '祖' && b == '宗') ||
    (a == '砚' && b == '台') ||
    (a == '码' && b == '头') ||
    (a == '石' && (b == '榴' || b == '头' || b == '匠')) ||
    (a == '知' && b == '识') ||
    (a == '眼' && b == '睛') ||
    (a == '眯' && b == '缝') ||
    (a == '眨' && b == '巴') ||
    (a == '眉' && b == '毛') ||
    (a == '相' && b == '声') ||
    (a == '盘' && (b == '算' || b == '缠')) ||
    (a == '白' && b == '净') ||
    (a == '痢' && b == '疾') ||
    (a == '痛' && b == '快') ||
    (a == '疟' && b == '疾') ||
    (a == '疙' && b == '瘩') ||
    (a == '疏' && b == '忽') ||
    (a == '畜' && b == '生') ||
    (a == '生' && b == '意') ||
    (a == '甘' && b == '蔗') ||
    (a == '琵' && b == '琶') ||
    (a == '琢' && b == '磨') ||
    (a == '琉' && b == '璃') ||
    (a == '玻' && b == '璃') ||
    (a == '玫' && b == '瑰') ||
    (a == '玄' && b == '乎') ||
    (a == '狐' && b == '狸') ||
    (a == '状' && b == '元') ||
    (a == '特' && b == '务') ||
    (a == '牲' && b == '口') ||
    (a == '牙' && b == '碜') ||
    (a == '牌' && b == '楼') ||
    (a == '爽' && b == '快') ||
    (a == '爱' && b == '人') ||
    (a == '热' && b == '闹') ||
    (a == '烧' && b == '饼') ||
    (a == '烟' && b == '筒') ||
    (a == '烂' && b == '糊') ||
    (a == '点' && b == '心') ||
    (a == '炊' && b == '帚') ||
    (a == '灯' && b == '笼') ||
    (a == '火' && b == '候') ||
    (a == '漂' && b == '亮') ||
    (a == '滑' && b == '溜') ||
    (a == '溜' && b == '达') ||
    (a == '温' && b == '和') ||
    (a == '清' && b == '楚') ||
    (a == '消' && b == '息') ||
    (a == '浪' && b == '头') ||
    (a == '活' && b == '泼') ||
    (a == '比' && b == '方') ||
    (a == '正' && b == '经') ||
    (a == '欺' && b == '负') ||
    (a == '模' && b == '糊') ||
    (a == '槟' && b == '榔') ||
    (a == '棺' && b == '材') ||
    (a == '棒' && b == '槌') ||
    (a == '棉' && b == '花') ||
    (a == '核' && b == '桃') ||
    (a == '栅' && b == '栏') ||
    (a == '柴' && b == '火') ||
    (a == '架' && b == '势') ||
    (a == '枕' && b == '头') ||
    (a == '枇' && b == '杷') ||
    (a == '机' && b == '灵') ||
    (a == '本' && b == '事') ||
    (a == '木' && (b == '头' || b == '匠')) ||
    (a == '朋' && b == '友') ||
    (a == '月' && (b == '饼' || b == '亮')) ||
    (a == '暖' && b == '和') ||
    (a == '明' && b == '白') ||
    (a == '时' && b == '候') ||
    (a == '新' && b == '鲜') ||
    (a == '故' && b == '事') ||
    (a == '收' && (b == '拾' || b == '成')) ||
    (a == '提' && b == '防') ||
    (a == '挖' && b == '苦') ||
    (a == '挑' && b == '剔') ||
    (a == '指' && (b == '甲' || b == '头')) ||
    (a == '拾' && b == '掇') ||
    (a == '拳' && b == '头') ||
    (a == '拨' && b == '弄') ||
    (a == '招' && (b == '牌' || b == '呼')) ||
    (a == '抬' && b == '举') ||
    (a == '护' && b == '士') ||
    (a == '折' && b == '腾') ||
    (a == '扫' && (b == '帚' || b == '把')) ||
    (a == '打' && (b == '量' || b == '算' || b == '点' || b == '扮' || b == '听' || b == '发')) ||
    (a == '扎' && b == '实') ||
    (a == '扁' && b == '担') ||
    (a == '戒' && b == '指') ||
    (a == '懒' && b == '得') ||
    (a == '意' && (b == '识' || b == '思')) ||
    (a == '情' && b == '形') ||
    (a == '悟' && b == '性') ||
    (a == '怪' && b == '物') ||
    (a == '思' && b == '量') ||
    (a == '怎' && b == '么') ||
    (a == '念' && (b == '头' || b == '叨')) ||
    (a == '快' && b == '活') ||
    (a == '忙' && b == '活') ||
    (a == '志' && b == '气') ||
    (a == '心' && b == '思') ||
    (a == '得' && b == '罪') ||
    (a == '张' && b == '罗') ||
    (a == '弟' && b == '兄') ||
    (a == '开' && b == '通') ||
    (a == '应' && b == '酬') ||
    (a == '庄' && b == '稼') ||
    (a == '干' && b == '事') ||
    (a == '帮' && b == '手') ||
    (a == '帐' && b == '篷') ||
    (a == '希' && b == '罕') ||
    (a == '师' && (b == '父' || b == '傅')) ||
    (a == '巴' && (b == '结' || b == '掌')) ||
    (a == '差' && b == '事') ||
    (a == '工' && b == '夫') ||
    (a == '岁' && b == '数') ||
    (a == '屁' && b == '股') ||
    (a == '尾' && b == '巴') ||
    (a == '少' && b == '爷') ||
    (a == '小' && (b == '气' || b == '伙')) ||
    (a == '将' && b == '就') ||
    (a == '对' && (b == '头' || b == '付')) ||
    (a == '寡' && b == '妇') ||
    (a == '家' && b == '伙') ||
    (a == '客' && b == '气') ||
    (a == '实' && b == '在') ||
    (a == '官' && b == '司') ||
    (a == '学' && (b == '问' || b == '生')) ||
    (a == '字' && b == '号') ||
    (a == '嫁' && b == '妆') ||
    (a == '媳' && b == '妇') ||
    (a == '媒' && b == '人') ||
    (a == '婆' && b == '家') ||
    (a == '娘' && b == '家') ||
    (a == '委' && b == '屈') ||
    (a == '姑' && b == '娘') ||
    (a == '姐' && b == '夫') ||
    (a == '妯' && b == '娌') ||
    (a == '妥' && b == '当') ||
    (a == '妖' && b == '精') ||
    (a == '奴' && b == '才') ||
    (a == '女' && b == '婿') ||
    (a == '头' && b == '发') ||
    (a == '太' && b == '阳') ||
    (a == '大' && (b == '爷' || b == '方' || b == '意' || b == '夫' || b == '人')) ||
    (a == '多' && (b == '少' || b == '么')) ||
    (a == '外' && b == '甥') ||
    (a == '壮' && b == '实') ||
    (a == '地' && (b == '道' || b == '方')) ||
    (a == '在' && b == '乎') ||
    (a == '困' && b == '难') ||
    (a == '嘴' && b == '巴') ||
    (a == '嘱' && b == '咐') ||
    (a == '嘟' && b == '囔') ||
    (a == '嘀' && b == '咕') ||
    (a == '喜' && b == '欢') ||
    (a == '喇' && (b == '嘛' || b == '叭')) ||
    (a == '商' && b == '量') ||
    (a == '唾' && b == '沫') ||
    (a == '哑' && b == '巴') ||
    (a == '哈' && b == '欠') ||
    (a == '哆' && b == '嗦') ||
    (a == '咳' && b == '嗽') ||
    (a == '和' && b == '尚') ||
    (a == '告' && (b == '诉' || b == '示')) ||
    (a == '含' && b == '糊') ||
    (a == '吓' && b == '唬') ||
    (a == '后' && b == '头') ||
    (a == '名' && (b == '字' || b == '堂')) ||
    (a == '合' && b == '同') ||
    (a == '吆' && b == '喝') ||
    (a == '叫' && b == '唤') ||
    (a == '口' && b == '袋') ||
    (a == '厚' && b == '道') ||
    (a == '厉' && b == '害') ||
    (a == '千' && b == '斤') ||
    (a == '包' && (b == '袱' || b == '涵')) ||
    (a == '匀' && b == '称') ||
    (a == '勤' && b == '快') ||
    (a == '动' && (b == '静' || b == '弹')) ||
    (a == '功' && b == '夫') ||
    (a == '力' && b == '气') ||
    (a == '前' && b == '头') ||
    (a == '刺' && (b == '猬' || b == '激')) ||
    (a == '别' && b == '扭') ||
    (a == '利' && (b == '落' || b == '索' || b == '害')) ||
    (a == '分' && b == '析') ||
    (a == '出' && b == '息') ||
    (a == '凑' && b == '合') ||
    (a == '凉' && b == '快') ||
    (a == '冷' && b == '战') ||
    (a == '冤' && (b == '枉' || b == '家')) ||
    (a == '冒' && b == '失') ||
    (a == '养' && b == '活') ||
    (a == '关' && b == '系') ||
    (a == '先' && b == '生') ||
    (a == '兄' && b == '弟') ||
    (a == '便' && b == '宜') ||
    (a == '使' && b == '唤') ||
    (a == '佩' && b == '服') ||
    (a == '作' && b == '坊') ||
    (a == '体' && b == '面') ||
    (a == '位' && b == '置') ||
    (a == '似' && b == '的') ||
    (a == '伙' && b == '计') ||
    (a == '休' && b == '息') ||
    (a == '什' && b == '么') ||
    (a == '人' && b == '家') ||
    (a == '亲' && (b == '戚' || b == '家')) ||
    (a == '交' && b == '情') ||
    (a == '云' && b == '彩') ||
    (a == '事' && b == '情') ||
    (a == '买' && b == '卖') ||
    (a == '主' && b == '意') ||
    (a == '丫' && b == '头') ||
    (a == '丧' && b == '气') ||
    (a == '两' && b == '口') ||
    (a == '东' && (b == '西' || b == '家')) ||
    (a == '世' && b == '故') ||
    (a == '不' && (b == '由' || b == '在')) ||
    (a == '下' && (b == '水' || b == '巴')) ||
    (a == '上' && (b == '头' || b == '司')) ||
    (a == '丈' && (b == '夫' || b == '人')) ||
    (a == '一' && b == '辈') ||
    (a == '菩' && b == '萨') ||
    (a == '父' && b == '亲') ||
    (a == '母' && b == '亲') ||
    (a == '咕' && b == '噜') ||
    (a == '邋' && b == '遢') ||
    (a == '费' && b == '用') ||
    (a == '甜' && b == '头') ||
    (a == '介' && b == '绍') ||
    (a == '荒' && b == '唐') ||
    (a == '泥' && b == '鳅') ||
    (a == '幸' && b == '福') ||
    (a == '熟' && b == '悉') ||
    (a == '计' && b == '划') ||
    (a == '扑' && b == '腾') ||
    (a == '蜡' && b == '烛') ||
    (a == '姥' && b == '爷') ||
    (a == '照' && b == '顾') ||
    (a == '喉' && b == '咙') ||
    (a == '吉' && b == '他') ||
    (a == '弄' && b == '堂') ||
    (a == '蚂' && b == '蚱') ||
    (a == '凤' && b == '凰') ||
    (a == '拖' && b == '沓') ||
    (a == '寒' && b == '碜') ||
    (a == '糟' && b == '蹋') ||
    (a == '倒' && b == '腾') ||
    (a == '报' && b == '复') ||
    (a == '逻' && b == '辑') ||
    (a == '喽' && b == '啰') ||
    (a == '牢' && b == '骚') ||
    (a == '咖' && b == '喱') ||
    (a == '惦' && b == '记')
}

/// Whether a word always ends in a neutral tone.
pub open spec fn must_neutral(w: Seq<char>) -> bool {
    w.len() == 2 && must_neutral_pair(w[0], w[1])
}

/// Whether a word never takes the neutral tone (男子, 人人, 花花草草, ...).
pub open spec fn must_not_neutral(w: Seq<char>) -> bool {
    is2(w, '男', '子') || is2(w, '女', '子') || is2(w, '分', '子') || is2(w, '原', '子') ||
    is2(w, '量', '子') || is2(w, '莲', '子') || is2(w, '石', '子') || is2(w, '瓜', '子') ||
    is2(w, '电', '子') || is2(w, '人', '人') || is2(w, '虎', '虎') || is2(w, '幺', '幺') ||
    is2(w, '干', '嘛') || is2(w, '学', '子') || is2(w, '哈', '哈') || is2(w, '数', '数') ||
    is2(w, '袅', '袅') || is2(w, '局', '地') || is2(w, '以', '下') || is3(w, '娃', '哈', '哈') ||
    is4(w, '花', '花', '草', '草') || is2(w, '留', '得') || is2(w, '耕', '地') ||
    is2(w, '想', '想') || is2(w, '熙', '熙') || is2(w, '攘', '攘') || is2(w, '卵', '子') ||
    is2(w, '死', '死') || is2(w, '冉', '冉') || is2(w, '恳', '恳') || is2(w, '佼', '佼') ||
    is2(w, '吵', '吵') || is2(w, '打', '打') || is2(w, '考', '考') || is2(w, '整', '整') ||
    is2(w, '莘', '莘') || is2(w, '落', '地') || is2(w, '算', '子') ||
    is4(w, '家', '家', '户', '户') || is2(w, '青', '青')
}

fn eq2(v: &Vec<char>, a: char, b: char) -> (r: bool)
    ensures
        r == is2(v@, a, b),
{
    v.len() == 2 && v[0] == a && v[1] == b
}

fn eq3(v: &Vec<char>, a: char, b: char, c: char) -> (r: bool)
    ensures
        r == is3(v@, a, b, c),
{
    v.len() == 3 && v[0] == a && v[1] == b && v[2] == c
}

fn eq4(v: &Vec<char>, a: char, b: char, c: char, d: char) -> (r: bool)
    ensures
        r == is4(v@, a, b, c, d),
{
    v.len() == 4 && v[0] == a && v[1] == b && v[2] == c && v[3] == d
}

/// Whether a word never takes the neutral tone (see `must_not_neutral`).
pub fn is_must_not_neutral(w: &Vec<char>) -> (r: bool)
    ensures
        r == must_not_neutral(w@),
{
    eq2(w, '男', '子') || eq2(w, '女', '子') || eq2(w, '分', '子') || eq2(w, '原', '子') ||
    eq2(w, '量', '子') || eq2(w, '莲', '子') || eq2(w, '石', '子') || eq2(w, '瓜', '子') ||
    eq2(w, '电', '子') || eq2(w, '人', '人') || eq2(w, '虎', '虎') || eq2(w, '幺', '幺') ||
    eq2(w, '干', '嘛') || eq2(w, '学', '子') || eq2(w, '哈', '哈') || eq2(w, '数', '数') ||
    eq2(w, '袅', '袅') || eq2(w, '局', '地') || eq2(w, '以', '下') || eq3(w, '娃', '哈', '哈') ||
    eq4(w, '花', '花', '草', '草') || eq2(w, '留', '得') || eq2(w, '耕', '地') ||
    eq2(w, '想', '想') || eq2(w, '熙', '熙') || eq2(w, '攘', '攘') || eq2(w, '卵', '子') ||
    eq2(w, '死', '死') || eq2(w, '冉', '冉') || eq2(w, '恳', '恳') || eq2(w, '佼', '佼') ||
    eq2(w, '吵', '吵') || eq2(w, '打', '打') || eq2(w, '考', '考') || eq2(w, '整', '整') ||
    eq2(w, '莘', '莘') || eq2(w, '落', '地') || eq2(w, '算', '子') ||
    eq4(w, '家', '家', '户', '户') || eq2(w, '青', '青')
}

/// Whether a word always ends in a neutral tone (see `must_neutral`).
pub fn is_must_neutral(w: &Vec<char>) -> (r: bool)
    ensures
        r == must_neutral(w@),
{
    w.len() == 2 && is_must_neutral_pair(w[0], w[1])
}

} // verus!
