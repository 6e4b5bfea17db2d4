//! Titles and descriptions of the permissions that plugins request.
use crate::language::{localized, pick, UiLanguage};
use crate::text::str_eq;
use vstd::prelude::*;

verus! {

/// The title and description of a known permission in the UI language.
pub open spec fn permission_texts(language: UiLanguage, name: Seq<char>) -> Option<(Seq<char>, Seq<char>)> {
    if name == "transport.control"@ {
        Some((pick(language, "Playback control"@, "播放控制"@, "再生制御"@), pick(language, "Play, pause, and seek"@, "播放、暂停和定位"@, "再生、一時停止、シーク"@)))
    } else if name == "clip.read"@ {
        Some((pick(language, "Read clips"@, "读取剪辑"@, "クリップ読み取り"@), pick(language, "List clip information"@, "列出剪辑信息"@, "クリップ情報の一覧表示"@)))
    } else if name == "clip.modify"@ {
        Some((pick(language, "Modify clips"@, "修改剪辑"@, "クリップ変更"@), pick(language, "Create, delete, and move clips"@, "创建、删除和移动剪辑"@, "クリップの作成、削除、移動"@)))
    } else if name == "effect.modify"@ {
        Some((pick(language, "Modify effects"@, "修改特效"@, "エフェクト変更"@), pick(language, "Add, delete, and change effects"@, "添加、删除和修改特效"@, "エフェクトの追加、削除、変更"@)))
    } else if name == "project.read"@ {
        Some((pick(language, "Read project"@, "读取项目"@, "プロジェクト読み取り"@), pick(language, "Read resolution, FPS, and other project information"@, "读取分辨率、FPS 等项目信息"@, "解像度、FPS等の情報取得"@)))
    } else if name == "project.save"@ {
        Some((pick(language, "Save project"@, "保存项目"@, "プロジェクト保存"@), pick(language, "Save project files"@, "保存项目文件"@, "プロジェクトファイルの保存"@)))
    } else if name == "project.load"@ {
        Some((pick(language, "Load project"@, "加载项目"@, "プロジェクト読み込み"@), pick(language, "Load project files"@, "加载项目文件"@, "プロジェクトファイルの読み込み"@)))
    } else if name == "scene.manage"@ {
        Some((pick(language, "Manage scenes"@, "管理场景"@, "シーン管理"@), pick(language, "Create, delete, and switch scenes"@, "创建、删除和切换场景"@, "シーンの作成、削除、切り替え"@)))
    } else if name == "settings.read"@ {
        Some((pick(language, "Read settings"@, "读取设置"@, "設定読み取り"@), pick(language, "Read plugin settings"@, "读取插件设置"@, "プラグイン設定の読み取り"@)))
    } else if name == "settings.write"@ {
        Some((pick(language, "Write settings"@, "写入设置"@, "設定書き込み"@), pick(language, "Save plugin settings"@, "保存插件设置"@, "プラグイン設定の保存"@)))
    } else if name == "clipboard.access"@ {
        Some((pick(language, "Clipboard access"@, "剪贴板访问"@, "クリップボード"@), pick(language, "Copy, cut, and paste"@, "复制、剪切和粘贴"@, "コピー、切り取り、貼り付け"@)))
    } else if name == "history.control"@ {
        Some((pick(language, "History control"@, "历史记录控制"@, "履歴操作"@), pick(language, "Undo, redo, and group commands"@, "撤销、重做和命令分组"@, "元に戻す、やり直し、コマンドのグループ化"@)))
    } else if name == "log.output"@ {
        Some((pick(language, "Log output"@, "日志输出"@, "ログ出力"@), pick(language, "Write messages to the console"@, "向控制台输出消息"@, "コンソールへのログ出力"@)))
    } else {
        None
    }
}

/// The title and description shown for a permission; both are empty for a
/// permission the editor does not know.
pub fn plugin_permission_metadata(language: UiLanguage, name: &str) -> (r: (&'static str, &'static str))
    ensures
        match permission_texts(language, name@) {
            Some(texts) => r.0@ == texts.0 && r.1@ == texts.1,
            None => r.0@ == Seq::<char>::empty() && r.1@ == Seq::<char>::empty(),
        },
{
    if str_eq(name, "transport.control") {
        (localized(language, "Playback control", "播放控制", "再生制御"), localized(language, "Play, pause, and seek", "播放、暂停和定位", "再生、一時停止、シーク"))
    } else if str_eq(name, "clip.read") {
        (localized(language, "Read clips", "读取剪辑", "クリップ読み取り"), localized(language, "List clip information", "列出剪辑信息", "クリップ情報の一覧表示"))
    } else if str_eq(name, "clip.modify") {
        (localized(language, "Modify clips", "修改剪辑", "クリップ変更"), localized(language, "Create, delete, and move clips", "创建、删除和移动剪辑", "クリップの作成、削除、移動"))
    } else if str_eq(name, "effect.modify") {
        (localized(language, "Modify effects", "修改特效", "エフェクト変更"), localized(language, "Add, delete, and change effects", "添加、删除和修改特效", "エフェクトの追加、削除、変更"))
    } else if str_eq(name, "project.read") {
        (localized(language, "Read project", "读取项目", "プロジェクト読み取り"), localized(language, "Read resolution, FPS, and other project information", "读取分辨率、FPS 等项目信息", "解像度、FPS等の情報取得"))
    } else if str_eq(name, "project.save") {
        (localized(language, "Save project", "保存项目", "プロジェクト保存"), localized(language, "Save project files", "保存项目文件", "プロジェクトファイルの保存"))
    } else if str_eq(name, "project.load") {
        (localized(language, "Load project", "加载项目", "プロジェクト読み込み"), localized(language, "Load project files", "加载项目文件", "プロジェクトファイルの読み込み"))
    } else if str_eq(name, "scene.manage") {
        (localized(language, "Manage scenes", "管理场景", "シーン管理"), localized(language, "Create, delete, and switch scenes", "创建、删除和切换场景", "シーンの作成、削除、切り替え"))
    } else if str_eq(name, "settings.read") {
        (localized(language, "Read settings", "读取设置", "設定読み取り"), localized(language, "Read plugin settings", "读取插件设置", "プラグイン設定の読み取り"))
    } else if str_eq(name, "settings.write") {
        (localized(language, "Write settings", "写入设置", "設定書き込み"), localized(language, "Save plugin settings", "保存插件设置", "プラグイン設定の保存"))
    } else if str_eq(name, "clipboard.access") {
        (localized(language, "Clipboard access", "剪贴板访问", "クリップボード"), localized(language, "Copy, cut, and paste", "复制、剪切和粘贴", "コピー、切り取り、貼り付け"))
    } else if str_eq(name, "history.control") {
        (localized(language, "History control", "历史记录控制", "履歴操作"), localized(language, "Undo, redo, and group commands", "撤销、重做和命令分组", "元に戻す、やり直し、コマンドのグループ化"))
    } else if str_eq(name, "log.output") {
        (localized(language, "Log output", "日志输出", "ログ出力"), localized(language, "Write messages to the console", "向控制台输出消息", "コンソールへのログ出力"))
    } else {
        proof {
            reveal_strlit("");
        }
        ("", "")
    }
}

} // verus!
