//! A snapshot of how a simulated account performed.

use crate::decimal::Decimal;
use crate::text::{amount_text, digits, push_number};
use vstd::prelude::*;
use vstd::string::*;

verus! {

/// Figures derived from the closed trades and the equity curve at one
/// moment. It is a copy: the trades and the curve stay the source of truth.
#[derive(Debug, Clone, Copy, PartialEq, Eq, Structural)]
pub struct PerformanceMetrics {
    pub initial_balance: Decimal,
    pub final_balance: Decimal,
    pub total_trades: usize,
    pub profitable_trades: usize,
    pub win_rate: Decimal,
    pub total_profit_loss: Decimal,
    pub total_return_percent: Decimal,
    pub avg_profit: Decimal,
    pub avg_loss: Decimal,
    pub risk_reward_ratio: Decimal,
    pub sharpe_ratio: Decimal,
    pub max_drawdown: Decimal,
}

impl PerformanceMetrics {
    /// The figures as one row of comma-separated values: the balances, the
    /// two counts, then the rates, sums and ratios, amounts with two places
    /// and the Sharpe ratio with four; a space stands before the last field.
    pub open spec fn csv_row(&self) -> Seq<char> {
        amount_text(self.initial_balance@, 2) + ","@ + amount_text(self.final_balance@, 2) + ","@ + digits(
            self.total_trades as nat,
        ) + ","@ + digits(self.profitable_trades as nat) + ","@ + amount_text(self.win_rate@, 2) + ","@
            + amount_text(self.total_profit_loss@, 2) + ","@ + amount_text(self.total_return_percent@, 2) + ","@
            + amount_text(self.avg_profit@, 2) + ","@ + amount_text(self.avg_loss@, 2) + ","@ + amount_text(
            self.risk_reward_ratio@,
            2,
        ) + ","@ + amount_text(self.sharpe_ratio@, 4) + ", "@ + amount_text(self.max_drawdown@, 2)
    }

    /// The figures as one row of comma-separated values.
    pub fn to_csv_row(&self) -> (res: String)
        ensures
            res@ == self.csv_row(),
    {
        let mut row = String::new();
        self.initial_balance.push_text(&mut row, 2);
        row.append(",");
        self.final_balance.push_text(&mut row, 2);
        row.append(",");
        push_number(&mut row, self.total_trades);
        row.append(",");
        push_number(&mut row, self.profitable_trades);
        row.append(",");
        self.win_rate.push_text(&mut row, 2);
        row.append(",");
        self.total_profit_loss.push_text(&mut row, 2);
        row.append(",");
        self.total_return_percent.push_text(&mut row, 2);
        row.append(",");
        self.avg_profit.push_text(&mut row, 2);
        row.append(",");
        self.avg_loss.push_text(&mut row, 2);
        row.append(",");
        self.risk_reward_ratio.push_text(&mut row, 2);
        row.append(",");
        self.sharpe_ratio.push_text(&mut row, 4);
        row.append(", ");
        self.max_drawdown.push_text(&mut row, 2);
        assert(row@ =~= self.csv_row());
        row
    }

    /// The lines of the summary, from the opening rule to the closing one.
    pub open spec fn summary(&self) -> Seq<Seq<char>> {
        seq![
            "====== Trading Performance Summary ======"@,
            "Initial Balance: $"@ + amount_text(self.initial_balance@, 2),
            "Final Balance: $"@ + amount_text(self.final_balance@, 2),
            "Total Return: $"@ + amount_text(self.total_profit_loss@, 2) + " ("@ + amount_text(
                self.total_return_percent@,
                2,
            ) + "%)"@,
            "Total Trades: "@ + digits(self.total_trades as nat),
            "Win Rate: "@ + amount_text(self.win_rate@, 2) + "% ("@ + digits(self.profitable_trades as nat) + "/"@
                + digits(self.total_trades as nat) + ")"@,
            "Avg Profit: $"@ + amount_text(self.avg_profit@, 2),
            "Avg Loss: $"@ + amount_text(self.avg_loss@, 2),
            "Risk-Reward Ratio: "@ + amount_text(self.risk_reward_ratio@, 2),
            "Sharpe Ratio: "@ + amount_text(self.sharpe_ratio@, 4),
            "Max Drawdown: "@ + amount_text(self.max_drawdown@, 2),
            "=========================================="@,
        ]
    }

    /// A line made of a label and an amount.
    fn labelled(label: &str, value: Decimal, places: usize) -> (res: String)
        requires
            places <= 8,
        ensures
            res@ == label@ + amount_text(value@, places as int),
    {
        let mut line = String::from_str(label);
        value.push_text(&mut line, places);
        line
    }

    /// The lines of the summary, ready to be printed or logged one by one.
    pub fn summary_lines(&self) -> (res: Vec<String>)
        ensures
            res@.len() == self.summary().len(),
            forall|i: int| 0 <= i < res@.len() ==> (#[trigger] res@[i])@ == self.summary()[i],
    {
        let mut lines: Vec<String> = Vec::new();
        lines.push(String::from_str("====== Trading Performance Summary ======"));
        lines.push(PerformanceMetrics::labelled("Initial Balance: $", self.initial_balance, 2));
        lines.push(PerformanceMetrics::labelled("Final Balance: $", self.final_balance, 2));
        let mut total = PerformanceMetrics::labelled("Total Return: $", self.total_profit_loss, 2);
        total.append(" (");
        self.total_return_percent.push_text(&mut total, 2);
        total.append("%)");
        lines.push(total);
        let mut trades = String::from_str("Total Trades: ");
        push_number(&mut trades, self.total_trades);
        lines.push(trades);
        let mut wins = PerformanceMetrics::labelled("Win Rate: ", self.win_rate, 2);
        wins.append("% (");
        push_number(&mut wins, self.profitable_trades);
        wins.append("/");
        push_number(&mut wins, self.total_trades);
        wins.append(")");
        lines.push(wins);
        lines.push(PerformanceMetrics::labelled("Avg Profit: $", self.avg_profit, 2));
        lines.push(PerformanceMetrics::labelled("Avg Loss: $", self.avg_loss, 2));
        lines.push(PerformanceMetrics::labelled("Risk-Reward Ratio: ", self.risk_reward_ratio, 2));
        lines.push(PerformanceMetrics::labelled("Sharpe Ratio: ", self.sharpe_ratio, 4));
        lines.push(PerformanceMetrics::labelled("Max Drawdown: ", self.max_drawdown, 2));
        lines.push(String::from_str("=========================================="));
        lines
    }
}

} // verus!
