pub mod alipay;
pub mod csv;
pub mod wechat;
