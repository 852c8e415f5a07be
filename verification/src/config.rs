//! Configuration values: key binding strings and the color theme.

use vstd::prelude::*;

verus! {

/// The key binding strings of the configuration, one per command.
#[derive(Debug, Clone)]
pub struct KeyBindings {
    pub split_down: String,
    pub split_right: String,
    pub close_pane: String,
    pub focus_up: String,
    pub focus_down: String,
    pub focus_left: String,
    pub focus_right: String,
    pub new_tab: String,
    pub close_tab: String,
    pub next_tab: String,
    pub prev_tab: String,
    pub detach: String,
    pub search: String,
    pub toggle_fullscreen: String,
    pub toggle_float: String,
    pub copy_mode: String,
}

impl Default for KeyBindings {
    /// Every command on the leader chord (Ctrl+Shift) with its own key.
    fn default() -> (r: Self)
        ensures
            r.split_down@ == "Leader+D"@,
            r.split_right@ == "Leader+R"@,
            r.close_pane@ == "Leader+X"@,
            r.focus_up@ == "Leader+Up"@,
            r.focus_down@ == "Leader+Down"@,
            r.focus_left@ == "Leader+Left"@,
            r.focus_right@ == "Leader+Right"@,
            r.new_tab@ == "Leader+T"@,
            r.close_tab@ == "Leader+W"@,
            r.next_tab@ == "Leader+N"@,
            r.prev_tab@ == "Leader+P"@,
            r.detach@ == "Leader+Q"@,
            r.search@ == "Leader+/"@,
            r.toggle_fullscreen@ == "Leader+F"@,
            r.toggle_float@ == "Leader+G"@,
            r.copy_mode@ == "Leader+["@,
    {
        Self {
            split_down: "Leader+D".to_owned(),
            split_right: "Leader+R".to_owned(),
            close_pane: "Leader+X".to_owned(),
            focus_up: "Leader+Up".to_owned(),
            focus_down: "Leader+Down".to_owned(),
            focus_left: "Leader+Left".to_owned(),
            focus_right: "Leader+Right".to_owned(),
            new_tab: "Leader+T".to_owned(),
            close_tab: "Leader+W".to_owned(),
            next_tab: "Leader+N".to_owned(),
            prev_tab: "Leader+P".to_owned(),
            detach: "Leader+Q".to_owned(),
            search: "Leader+/".to_owned(),
            toggle_fullscreen: "Leader+F".to_owned(),
            toggle_float: "Leader+G".to_owned(),
            copy_mode: "Leader+[".to_owned(),
        }
    }
}

/// Theme and color scheme: hex color strings.
#[derive(Debug, Clone)]
pub struct Theme {
    /// Background color (hex string).
    pub background: String,
    /// Default foreground/text color (hex string).
    pub foreground: String,
    /// Cursor color (hex string).
    pub cursor: String,
    /// Selection highlight background color (hex string).
    pub selection_bg: String,
    /// ANSI color palette (indices 0-7 normal, 8-15 bright).
    pub colors: [String; 16],
}

impl Default for Theme {
    /// A dark theme with the sixteen-color ANSI palette.
    fn default() -> (r: Self)
        ensures
            r.background@ == "#282C34"@,
            r.foreground@ == "#ABB2BF"@,
            r.cursor@ == "#528BFF"@,
            r.selection_bg@ == "#3E4451"@,
            r.colors@[0]@ == "#1D1F21"@,
            r.colors@[1]@ == "#CC6666"@,
            r.colors@[2]@ == "#B5BD68"@,
            r.colors@[3]@ == "#F0C674"@,
            r.colors@[4]@ == "#81A2BE"@,
            r.colors@[5]@ == "#B294BB"@,
            r.colors@[6]@ == "#8ABEB7"@,
            r.colors@[7]@ == "#C5C8C6"@,
            r.colors@[8]@ == "#666666"@,
            r.colors@[9]@ == "#D54E53"@,
            r.colors@[10]@ == "#B9CA4A"@,
            r.colors@[11]@ == "#E7C547"@,
            r.colors@[12]@ == "#7AA6DA"@,
            r.colors@[13]@ == "#C397D8"@,
            r.colors@[14]@ == "#70C0B1"@,
            r.colors@[15]@ == "#EAEAEA"@,
    {
        Self {
            background: "#282C34".to_owned(),
            foreground: "#ABB2BF".to_owned(),
            cursor: "#528BFF".to_owned(),
            selection_bg: "#3E4451".to_owned(),
            colors: [
                // Normal 0-7
                "#1D1F21".to_owned(),
                "#CC6666".to_owned(),
                "#B5BD68".to_owned(),
                "#F0C674".to_owned(),
                "#81A2BE".to_owned(),
                "#B294BB".to_owned(),
                "#8ABEB7".to_owned(),
                "#C5C8C6".to_owned(),
                // Bright 8-15
                "#666666".to_owned(),
                "#D54E53".to_owned(),
                "#B9CA4A".to_owned(),
                "#E7C547".to_owned(),
                "#7AA6DA".to_owned(),
                "#C397D8".to_owned(),
                "#70C0B1".to_owned(),
                "#EAEAEA".to_owned(),
            ],
        }
    }
}

} // verus!
