//! The Lua chunk that installs the secure `RegisterEventCallback` wrapper.

use vstd::prelude::*;

verus! {

/// The chunk that installs `RegisterEventCallback`; it is called with the
/// callback-event and restricted-event tables.
pub const EVENT_CALLBACK_LUA: &'static str = r#"local callback_events, restricted_events = ...
local getinfo, getstacktaint = debug.getinfo, debug.getstacktaint
local match = string.match
local function get_taint()
    for level = 2, 30 do
        local info = getinfo(level, 'S')
        if not info then break end
        if info.source then
            local addon = match(info.source, 'AddOns/([^/]+)')
            if addon then return addon end
        end
    end
    return getstacktaint()
end
RegisterEventCallback = function(event, callback)
    if not callback_events[event] then
        local taint = get_taint()
        local suffix = taint and ('\nLua Taint: ' .. taint) or ''
        error('RegisterEventCallback Attempt to register unknown event "' .. event .. '"' .. suffix, 0)
    end
    return not restricted_events[event]
end
RegisterEventCallback = debug.newsecurefunction(RegisterEventCallback)
"#;

/// The `RegisterEventCallback` chunk.
pub fn event_callback_lua_src() -> (r: &'static str)
    ensures
        r@ == EVENT_CALLBACK_LUA@,
{
    EVENT_CALLBACK_LUA
}

} // verus!
